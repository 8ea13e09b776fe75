use vstd::prelude::*;

use crate::text::{char_vec, str_eq, string_from_chars};

verus! {

/// Number of variants of [`DescKey`].
pub const KEY_COUNT: usize = 25;

/// A recognised section tag of the metadata format.
#[derive(Debug, Clone, Copy, PartialEq, Eq, Hash, Structural)]
pub enum DescKey {
    Filename,
    Name,
    Base,
    Version,
    Desc,
    CSize,
    ISize,
    MD5Sum,
    SHA256Sum,
    PGPSig,
    Url,
    License,
    Arch,
    BuildDate,
    Packager,
    Depends,
    MakeDepends,
    Groups,
    Replaces,
    Provides,
    CheckDepends,
    Conflicts,
    OptDepends,
    /// Added by the indexer, never read from metadata text.
    Repo,
    /// Holds the lines that come before the first tag.
    Begin,
}

/// What `str::to_uppercase` gives for a string.
pub uninterp spec fn upper_of(s: Seq<char>) -> Seq<char>;

/// Relies on `str::to_uppercase`: the result depends on the characters alone.
#[verifier::external_body]
fn to_upper(s: &str) -> (r: String)
    ensures
        r@ == upper_of(s@),
{
    s.to_uppercase()
}

/// The key an upper-cased tag name stands for.
pub open spec fn key_of(u: Seq<char>) -> Option<DescKey> {
    if u == "FILENAME"@ { Some(DescKey::Filename) }
    else if u == "NAME"@ { Some(DescKey::Name) }
    else if u == "BASE"@ { Some(DescKey::Base) }
    else if u == "VERSION"@ { Some(DescKey::Version) }
    else if u == "DESC"@ { Some(DescKey::Desc) }
    else if u == "CSIZE"@ { Some(DescKey::CSize) }
    else if u == "ISIZE"@ { Some(DescKey::ISize) }
    else if u == "MD5SUM"@ { Some(DescKey::MD5Sum) }
    else if u == "SHA256SUM"@ { Some(DescKey::SHA256Sum) }
    else if u == "PGPSIG"@ { Some(DescKey::PGPSig) }
    else if u == "URL"@ { Some(DescKey::Url) }
    else if u == "LICENSE"@ { Some(DescKey::License) }
    else if u == "ARCH"@ { Some(DescKey::Arch) }
    else if u == "BUILDDATE"@ { Some(DescKey::BuildDate) }
    else if u == "PACKAGER"@ { Some(DescKey::Packager) }
    else if u == "DEPENDS"@ { Some(DescKey::Depends) }
    else if u == "MAKEDEPENDS"@ { Some(DescKey::MakeDepends) }
    else if u == "GROUPS"@ { Some(DescKey::Groups) }
    else if u == "REPLACES"@ { Some(DescKey::Replaces) }
    else if u == "PROVIDES"@ { Some(DescKey::Provides) }
    else if u == "CHECKDEPENDS"@ { Some(DescKey::CheckDepends) }
    else if u == "CONFLICTS"@ { Some(DescKey::Conflicts) }
    else if u == "OPTDEPENDS"@ { Some(DescKey::OptDepends) }
    else { None }
}

/// Position of a key in the fixed key order.
pub open spec fn key_index(k: DescKey) -> int {
    match k {
        DescKey::Filename => 0,
        DescKey::Name => 1,
        DescKey::Base => 2,
        DescKey::Version => 3,
        DescKey::Desc => 4,
        DescKey::CSize => 5,
        DescKey::ISize => 6,
        DescKey::MD5Sum => 7,
        DescKey::SHA256Sum => 8,
        DescKey::PGPSig => 9,
        DescKey::Url => 10,
        DescKey::License => 11,
        DescKey::Arch => 12,
        DescKey::BuildDate => 13,
        DescKey::Packager => 14,
        DescKey::Depends => 15,
        DescKey::MakeDepends => 16,
        DescKey::Groups => 17,
        DescKey::Replaces => 18,
        DescKey::Provides => 19,
        DescKey::CheckDepends => 20,
        DescKey::Conflicts => 21,
        DescKey::OptDepends => 22,
        DescKey::Repo => 23,
        DescKey::Begin => 24,
    }
}

/// The field name a key carries in an outgoing document.
pub open spec fn field_name_of(k: DescKey) -> Seq<char> {
    match k {
        DescKey::Filename => "filename"@,
        DescKey::Name => "name"@,
        DescKey::Base => "base"@,
        DescKey::Version => "version"@,
        DescKey::Desc => "desc"@,
        DescKey::CSize => "c_size"@,
        DescKey::ISize => "i_size"@,
        DescKey::MD5Sum => "md5_sum"@,
        DescKey::SHA256Sum => "sha256_sum"@,
        DescKey::PGPSig => "pgp_sig"@,
        DescKey::Url => "url"@,
        DescKey::License => "license"@,
        DescKey::Arch => "arch"@,
        DescKey::BuildDate => "build_date"@,
        DescKey::Packager => "packager"@,
        DescKey::Depends => "depends"@,
        DescKey::MakeDepends => "make_depends"@,
        DescKey::Groups => "groups"@,
        DescKey::Replaces => "replaces"@,
        DescKey::Provides => "provides"@,
        DescKey::CheckDepends => "check_depends"@,
        DescKey::Conflicts => "conflicts"@,
        DescKey::OptDepends => "opt_depends"@,
        DescKey::Repo => "repo"@,
        DescKey::Begin => "begin"@,
    }
}

/// Why a metadata text was refused.
#[derive(Debug)]
pub enum DescError {
    /// A `%TAG%` line whose tag is not a known key; holds the tag without its `%`s.
    InvalidKey(String),
}

impl DescError {
    pub open spec fn tag(&self) -> Seq<char> {
        match self {
            DescError::InvalidKey(t) => t@,
        }
    }

    /// A human-readable description of the error.
    pub fn message(&self) -> (r: String)
        ensures
            r@ == "invalid key: "@ + self.tag(),
    {
        match self {
            DescError::InvalidKey(t) => {
                let mut m = String::from_str("invalid key: ");
                m.append(t.as_str());
                m
            },
        }
    }
}

impl DescKey {
    /// The key for an already upper-cased tag name.
    pub fn from_upper(u: &str) -> (r: Option<DescKey>)
        ensures
            r == key_of(u@),
    {
        if str_eq(u, "FILENAME") { Some(DescKey::Filename) }
        else if str_eq(u, "NAME") { Some(DescKey::Name) }
        else if str_eq(u, "BASE") { Some(DescKey::Base) }
        else if str_eq(u, "VERSION") { Some(DescKey::Version) }
        else if str_eq(u, "DESC") { Some(DescKey::Desc) }
        else if str_eq(u, "CSIZE") { Some(DescKey::CSize) }
        else if str_eq(u, "ISIZE") { Some(DescKey::ISize) }
        else if str_eq(u, "MD5SUM") { Some(DescKey::MD5Sum) }
        else if str_eq(u, "SHA256SUM") { Some(DescKey::SHA256Sum) }
        else if str_eq(u, "PGPSIG") { Some(DescKey::PGPSig) }
        else if str_eq(u, "URL") { Some(DescKey::Url) }
        else if str_eq(u, "LICENSE") { Some(DescKey::License) }
        else if str_eq(u, "ARCH") { Some(DescKey::Arch) }
        else if str_eq(u, "BUILDDATE") { Some(DescKey::BuildDate) }
        else if str_eq(u, "PACKAGER") { Some(DescKey::Packager) }
        else if str_eq(u, "DEPENDS") { Some(DescKey::Depends) }
        else if str_eq(u, "MAKEDEPENDS") { Some(DescKey::MakeDepends) }
        else if str_eq(u, "GROUPS") { Some(DescKey::Groups) }
        else if str_eq(u, "REPLACES") { Some(DescKey::Replaces) }
        else if str_eq(u, "PROVIDES") { Some(DescKey::Provides) }
        else if str_eq(u, "CHECKDEPENDS") { Some(DescKey::CheckDepends) }
        else if str_eq(u, "CONFLICTS") { Some(DescKey::Conflicts) }
        else if str_eq(u, "OPTDEPENDS") { Some(DescKey::OptDepends) }
        else { None }
    }

    /// Parses a tag name, ignoring case. `Repo` and `Begin` are never produced.
    pub fn parse(s: &str) -> (r: Result<DescKey, DescError>)
        ensures
            match key_of(upper_of(s@)) {
                Some(k) => r == Ok::<DescKey, DescError>(k),
                None => r is Err && r->Err_0.tag() == s@,
            },
    {
        let u = to_upper(s);
        match DescKey::from_upper(u.as_str()) {
            Some(k) => Ok(k),
            None => Err(DescError::InvalidKey(s.to_owned())),
        }
    }

    /// Position of the key in the fixed key order.
    pub fn index(&self) -> (r: usize)
        ensures
            r as int == key_index(*self),
            r < KEY_COUNT,
    {
        match self {
            DescKey::Filename => 0,
            DescKey::Name => 1,
            DescKey::Base => 2,
            DescKey::Version => 3,
            DescKey::Desc => 4,
            DescKey::CSize => 5,
            DescKey::ISize => 6,
            DescKey::MD5Sum => 7,
            DescKey::SHA256Sum => 8,
            DescKey::PGPSig => 9,
            DescKey::Url => 10,
            DescKey::License => 11,
            DescKey::Arch => 12,
            DescKey::BuildDate => 13,
            DescKey::Packager => 14,
            DescKey::Depends => 15,
            DescKey::MakeDepends => 16,
            DescKey::Groups => 17,
            DescKey::Replaces => 18,
            DescKey::Provides => 19,
            DescKey::CheckDepends => 20,
            DescKey::Conflicts => 21,
            DescKey::OptDepends => 22,
            DescKey::Repo => 23,
            DescKey::Begin => 24,
        }
    }

    /// The key at a position of the fixed key order, if there is one.
    pub fn from_index(i: usize) -> (r: Option<DescKey>)
        ensures
            r is Some <==> i < KEY_COUNT,
            r is Some ==> key_index(r->Some_0) == i as int,
    {
        match i {
            0 => Some(DescKey::Filename),
            1 => Some(DescKey::Name),
            2 => Some(DescKey::Base),
            3 => Some(DescKey::Version),
            4 => Some(DescKey::Desc),
            5 => Some(DescKey::CSize),
            6 => Some(DescKey::ISize),
            7 => Some(DescKey::MD5Sum),
            8 => Some(DescKey::SHA256Sum),
            9 => Some(DescKey::PGPSig),
            10 => Some(DescKey::Url),
            11 => Some(DescKey::License),
            12 => Some(DescKey::Arch),
            13 => Some(DescKey::BuildDate),
            14 => Some(DescKey::Packager),
            15 => Some(DescKey::Depends),
            16 => Some(DescKey::MakeDepends),
            17 => Some(DescKey::Groups),
            18 => Some(DescKey::Replaces),
            19 => Some(DescKey::Provides),
            20 => Some(DescKey::CheckDepends),
            21 => Some(DescKey::Conflicts),
            22 => Some(DescKey::OptDepends),
            23 => Some(DescKey::Repo),
            24 => Some(DescKey::Begin),
            _ => None,
        }
    }

    /// The field name of the key in an outgoing document.
    pub fn field_name(&self) -> (r: &'static str)
        ensures
            r@ == field_name_of(*self),
    {
        match self {
            DescKey::Filename => "filename",
            DescKey::Name => "name",
            DescKey::Base => "base",
            DescKey::Version => "version",
            DescKey::Desc => "desc",
            DescKey::CSize => "c_size",
            DescKey::ISize => "i_size",
            DescKey::MD5Sum => "md5_sum",
            DescKey::SHA256Sum => "sha256_sum",
            DescKey::PGPSig => "pgp_sig",
            DescKey::Url => "url",
            DescKey::License => "license",
            DescKey::Arch => "arch",
            DescKey::BuildDate => "build_date",
            DescKey::Packager => "packager",
            DescKey::Depends => "depends",
            DescKey::MakeDepends => "make_depends",
            DescKey::Groups => "groups",
            DescKey::Replaces => "replaces",
            DescKey::Provides => "provides",
            DescKey::CheckDepends => "check_depends",
            DescKey::Conflicts => "conflicts",
            DescKey::OptDepends => "opt_depends",
            DescKey::Repo => "repo",
            DescKey::Begin => "begin",
        }
    }
}

impl std::str::FromStr for DescKey {
    type Err = DescError;

    fn from_str(s: &str) -> Result<DescKey, DescError> {
        DescKey::parse(s)
    }
}


/// The value of one field: one line, or two or more lines in order.
pub enum DescValue {
    Single(String),
    Array(Vec<String>),
}

impl DescValue {
    /// The lines the value holds, in order.
    pub open spec fn lines(&self) -> Seq<Seq<char>> {
        match self {
            DescValue::Single(s) => seq![s@],
            DescValue::Array(v) => v@.map_values(|x: String| x@),
        }
    }

    /// A value built by parsing: a single line is always `Single`.
    pub open spec fn well_sized(&self) -> bool {
        match self {
            DescValue::Single(_) => true,
            DescValue::Array(v) => v.len() >= 2,
        }
    }
}

/// The fields of one package's metadata, at most one value per key.
pub struct PackageDesc {
    slots: Vec<Option<DescValue>>,
}

/// The lines stored under `k`, in text order, among `(key, line)` pairs.
pub open spec fn lines_under(pairs: Seq<(DescKey, Seq<char>)>, k: DescKey) -> Seq<Seq<char>>
    decreases pairs.len(),
{
    if pairs.len() == 0 {
        Seq::empty()
    } else {
        let rest = lines_under(pairs.drop_last(), k);
        if pairs.last().0 == k {
            rest.push(pairs.last().1)
        } else {
            rest
        }
    }
}

/// Each key that has lines, with its lines.
pub open spec fn fields_of(pairs: Seq<(DescKey, Seq<char>)>) -> Map<DescKey, Seq<Seq<char>>> {
    Map::new(|k: DescKey| lines_under(pairs, k).len() > 0, |k: DescKey| lines_under(pairs, k))
}

/// The line with one trailing carriage return removed.
pub open spec fn strip_cr(l: Seq<char>) -> Seq<char> {
    if l.len() > 0 && l.last() == '\r' {
        l.drop_last()
    } else {
        l
    }
}

/// The finished lines of `s`, and the text after the last newline.
pub open spec fn scan_lines(s: Seq<char>) -> (Seq<Seq<char>>, Seq<char>)
    decreases s.len(),
{
    if s.len() == 0 {
        (Seq::empty(), Seq::empty())
    } else {
        let (done, cur) = scan_lines(s.drop_last());
        if s.last() == '\n' {
            (done.push(strip_cr(cur)), Seq::empty())
        } else {
            (done, cur.push(s.last()))
        }
    }
}

/// The lines of a text: split at `\n`, a `\r` before it dropped. The last
/// one may be empty; empty lines carry nothing in the format.
pub open spec fn text_lines(s: Seq<char>) -> Seq<Seq<char>> {
    scan_lines(s).0.push(scan_lines(s).1)
}

pub open spec fn is_tag_line(l: Seq<char>) -> bool {
    l.len() > 0 && l[0] == '%' && l.last() == '%'
}

pub open spec fn trim_front(l: Seq<char>) -> Seq<char>
    decreases l.len(),
{
    if l.len() > 0 && l[0] == '%' {
        trim_front(l.drop_first())
    } else {
        l
    }
}

pub open spec fn trim_back(l: Seq<char>) -> Seq<char>
    decreases l.len(),
{
    if l.len() > 0 && l.last() == '%' {
        trim_back(l.drop_last())
    } else {
        l
    }
}

/// A tag line without its leading and trailing `%`s.
pub open spec fn tag_name(l: Seq<char>) -> Seq<char> {
    trim_back(trim_front(l))
}

/// One line of the format applied to the current key and the pairs so far;
/// `Err` holds the tag of an unknown key.
pub open spec fn tag_step(
    cur: DescKey,
    pairs: Seq<(DescKey, Seq<char>)>,
    l: Seq<char>,
) -> Result<(DescKey, Seq<(DescKey, Seq<char>)>), Seq<char>> {
    if l.len() == 0 {
        Ok((cur, pairs))
    } else if is_tag_line(l) {
        match key_of(upper_of(tag_name(l))) {
            Some(k) => Ok((k, pairs)),
            None => Err(tag_name(l)),
        }
    } else {
        Ok((cur, pairs.push((cur, l))))
    }
}

/// The lines taken in order, starting under `Begin`.
pub open spec fn tag_lines(ls: Seq<Seq<char>>) -> Result<(DescKey, Seq<(DescKey, Seq<char>)>), Seq<char>>
    decreases ls.len(),
{
    if ls.len() == 0 {
        Ok((DescKey::Begin, Seq::empty()))
    } else {
        match tag_lines(ls.drop_last()) {
            Ok((cur, pairs)) => tag_step(cur, pairs, ls.last()),
            Err(e) => Err(e),
        }
    }
}

/// What a metadata text parses to: each key's lines, or the first unknown tag.
pub open spec fn parse_spec(text: Seq<char>) -> Result<Map<DescKey, Seq<Seq<char>>>, Seq<char>> {
    match tag_lines(text_lines(text)) {
        Ok((_, pairs)) => Ok(fields_of(pairs)),
        Err(e) => Err(e),
    }
}

impl PackageDesc {
    /// The value stored under `k`, if any.
    pub closed spec fn value(&self, k: DescKey) -> Option<DescValue> {
        self.slots@[key_index(k)]
    }

    pub closed spec fn shape_ok(&self) -> bool {
        self.slots@.len() == KEY_COUNT
    }

    /// Every value is `Single` exactly when it holds one line.
    pub open spec fn wf(&self) -> bool {
        &&& self.shape_ok()
        &&& forall|k: DescKey| #[trigger] self.value(k) is Some ==> self.value(k)->Some_0.well_sized()
    }

    /// Each present key with its lines.
    pub open spec fn view(&self) -> Map<DescKey, Seq<Seq<char>>> {
        Map::new(|k: DescKey| self.value(k) is Some, |k: DescKey| self.value(k)->Some_0.lines())
    }

    /// The value of `key` when it is a single line.
    pub fn get_single(&self, key: DescKey) -> (r: Option<&str>)
        requires
            self.wf(),
        ensures
            r is Some <==> (self@.contains_key(key) && self@[key].len() == 1),
            r is Some ==> r->Some_0@ == self@[key][0],
    {
        let i = key.index();
        match &self.slots[i] {
            Some(DescValue::Single(v)) => Some(v.as_str()),
            Some(DescValue::Array(v)) => {
                assert(self.value(key)->Some_0.well_sized());
                None
            },
            None => None,
        }
    }

    /// The value stored under `key`, if any.
    pub fn get(&self, key: DescKey) -> (r: Option<&DescValue>)
        requires
            self.wf(),
        ensures
            r is Some <==> self@.contains_key(key),
            r is Some ==> *r->Some_0 == self.value(key)->Some_0,
    {
        let i = key.index();
        match &self.slots[i] {
            Some(v) => Some(v),
            None => None,
        }
    }

    /// Puts a single value under `key`, replacing what was there.
    pub fn put_single(&mut self, key: DescKey, value: String)
        requires
            old(self).wf(),
        ensures
            final(self).wf(),
            final(self)@ == old(self)@.insert(key, seq![value@]),
            final(self).value(key) == Some(DescValue::Single(value)),
    {
        let i = key.index();
        self.slots.set(i, Some(DescValue::Single(value)));
        proof {
            assert forall|k: DescKey| key_index(k) == key_index(key) implies k == key by {}
            assert forall|k: DescKey| #[trigger] self.value(k) is Some implies self.value(
                k,
            )->Some_0.well_sized() by {
                if k != key {
                    assert(old(self).value(k) == self.value(k));
                }
            }
            assert(self@ =~= old(self)@.insert(key, seq![value@]));
        }
    }
}


/// The `(key, line)` pairs with each line as its characters.
pub open spec fn pairs_view(pairs: Seq<(DescKey, String)>) -> Seq<(DescKey, Seq<char>)> {
    pairs.map_values(|p: (DescKey, String)| (p.0, p.1@))
}

/// The tag of a tag line: `line` without its leading and trailing `%`s.
fn trim_tag(line: &Vec<char>) -> (r: Vec<char>)
    ensures
        r@ == tag_name(line@),
{
    let n = line.len();
    let mut a: usize = 0;
    assert(line@.subrange(0, n as int) =~= line@);
    while a < n && line[a] == '%'
        invariant
            a <= n,
            n == line@.len(),
            trim_front(line@) == trim_front(line@.subrange(a as int, n as int)),
        decreases n - a,
    {
        assert(line@.subrange(a as int, n as int).drop_first() =~= line@.subrange(
            a + 1,
            n as int,
        ));
        a = a + 1;
    }
    let ghost front = line@.subrange(a as int, n as int);
    assert(trim_front(line@) == front);
    let mut b: usize = n;
    while b > a && line[b - 1] == '%'
        invariant
            a <= b <= n,
            n == line@.len(),
            front == line@.subrange(a as int, n as int),
            trim_back(front) == trim_back(line@.subrange(a as int, b as int)),
        decreases b - a,
    {
        assert(line@.subrange(a as int, b as int).drop_last() =~= line@.subrange(
            a as int,
            b - 1,
        ));
        b = b - 1;
    }
    let mut r: Vec<char> = Vec::new();
    let mut i: usize = a;
    while i < b
        invariant
            a <= i <= b <= n,
            n == line@.len(),
            r@ == line@.subrange(a as int, i as int),
        decreases b - i,
    {
        r.push(line[i]);
        assert(r@ =~= line@.subrange(a as int, i + 1));
        i = i + 1;
    }
    r
}

/// Applies one line to the current key and the pairs so far; returns the tag
/// of an unknown key.
fn feed_line(cur: &mut DescKey, pairs: &mut Vec<(DescKey, String)>, line: &Vec<char>) -> (r:
    Option<String>)
    ensures
        match tag_step(*old(cur), pairs_view(old(pairs)@), line@) {
            Ok((c, p)) => r is None && *final(cur) == c && pairs_view(final(pairs)@) == p,
            Err(e) => r is Some && r->Some_0@ == e,
        },
{
    let n = line.len();
    if n == 0 {
        return None;
    }
    if line[0] == '%' && line[n - 1] == '%' {
        let name = trim_tag(line);
        let tag = string_from_chars(name.as_slice());
        match DescKey::parse(tag.as_str()) {
            Ok(k) => {
                *cur = k;
                None
            },
            Err(_) => Some(tag),
        }
    } else {
        let ghost before = pairs@;
        pairs.push((*cur, string_from_chars(line.as_slice())));
        assert(pairs_view(pairs@) =~= pairs_view(before).push((*cur, line@)));
        None
    }
}

/// Gathers the lines stored under each key into a `PackageDesc`.
fn collect_fields(pairs: &Vec<(DescKey, String)>) -> (r: PackageDesc)
    ensures
        r.wf(),
        r@ == fields_of(pairs_view(pairs@)),
{
    let ghost pv = pairs_view(pairs@);
    let mut slots: Vec<Option<DescValue>> = Vec::new();
    let mut ki: usize = 0;
    while ki < KEY_COUNT
        invariant
            ki <= KEY_COUNT,
            slots@.len() == ki,
            pv == pairs_view(pairs@),
            forall|k: DescKey|
                key_index(k) < ki ==> {
                    let v = #[trigger] slots@[key_index(k)];
                    &&& (v is Some <==> lines_under(pv, k).len() > 0)
                    &&& v is Some ==> v->Some_0.well_sized() && v->Some_0.lines() == lines_under(
                        pv,
                        k,
                    )
                },
        decreases KEY_COUNT - ki,
    {
        let k = match DescKey::from_index(ki) {
            Some(k) => k,
            None => DescKey::Begin,
        };
        let mut v: Vec<String> = Vec::new();
        let mut j: usize = 0;
        while j < pairs.len()
            invariant
                j <= pairs@.len(),
                pv == pairs_view(pairs@),
                v@.map_values(|x: String| x@) == lines_under(pv.take(j as int), k),
            decreases pairs.len() - j,
        {
            assert(pv.take(j + 1).drop_last() =~= pv.take(j as int));
            if pairs[j].0 == k {
                let ghost before = v@;
                v.push(pairs[j].1.clone());
                assert(v@.map_values(|x: String| x@) =~= before.map_values(|x: String| x@).push(
                    pairs@[j as int].1@,
                ));
            }
            j = j + 1;
        }
        assert(pv.take(pairs@.len() as int) =~= pv);
        let slot = if v.len() == 0 {
            None
        } else if v.len() == 1 {
            let ghost before = v@;
            let s = v.pop().unwrap();
            assert(seq![s@] =~= before.map_values(|x: String| x@));
            Some(DescValue::Single(s))
        } else {
            Some(DescValue::Array(v))
        };
        slots.push(slot);
        proof {
            assert forall|kk: DescKey| key_index(kk) == key_index(k) implies kk == k by {}
        }
        ki = ki + 1;
    }
    let r = PackageDesc { slots };
    assert(r@ =~= fields_of(pv));
    r
}

/// Parses the metadata format: `%TAG%` lines open a section, other non-empty
/// lines belong to the open one; a section of one line is `Single`, of more
/// an `Array` in text order. An unknown tag fails the whole parse.
pub fn parse_desc(desc: &str) -> (r: Result<PackageDesc, DescError>)
    ensures
        r is Ok <==> parse_spec(desc@) is Ok,
        r is Ok ==> r->Ok_0.wf() && parse_spec(desc@) == Ok::<
            Map<DescKey, Seq<Seq<char>>>,
            Seq<char>,
        >(r->Ok_0@),
        r is Err ==> parse_spec(desc@) == Err::<Map<DescKey, Seq<Seq<char>>>, Seq<char>>(
            r->Err_0.tag(),
        ),
{
    let chars = char_vec(desc);
    let mut cur = DescKey::Begin;
    let mut pairs: Vec<(DescKey, String)> = Vec::new();
    let mut err: Option<String> = None;
    let mut line: Vec<char> = Vec::new();
    let mut i: usize = 0;
    assert(pairs_view(pairs@) =~= Seq::empty());
    while i < chars.len()
        invariant
            chars@ == desc@,
            i <= chars@.len(),
            scan_lines(chars@.take(i as int)).1 == line@,
            match err {
                None => tag_lines(scan_lines(chars@.take(i as int)).0) == Ok::<
                    (DescKey, Seq<(DescKey, Seq<char>)>),
                    Seq<char>,
                >((cur, pairs_view(pairs@))),
                Some(e) => tag_lines(scan_lines(chars@.take(i as int)).0) == Err::<
                    (DescKey, Seq<(DescKey, Seq<char>)>),
                    Seq<char>,
                >(e@),
            },
        decreases chars.len() - i,
    {
        assert(chars@.take(i + 1).drop_last() =~= chars@.take(i as int));
        let c = chars[i];
        if c == '\n' {
            let n = line.len();
            if n > 0 && line[n - 1] == '\r' {
                let ghost before = line@;
                line.pop();
                assert(line@ =~= strip_cr(before));
            }
            let ghost done = scan_lines(chars@.take(i as int)).0;
            assert(done.push(line@).drop_last() =~= done);
            if err.is_none() {
                err = feed_line(&mut cur, &mut pairs, &line);
            }
            line = Vec::new();
        } else {
            line.push(c);
        }
        i = i + 1;
    }
    assert(chars@.take(chars@.len() as int) =~= chars@);
    let ghost done = scan_lines(chars@).0;
    assert(done.push(line@).drop_last() =~= done);
    if err.is_none() {
        err = feed_line(&mut cur, &mut pairs, &line);
    }
    match err {
        Some(t) => Err(DescError::InvalidKey(t)),
        None => Ok(collect_fields(&pairs)),
    }
}


proof fn lemma_tag_lines_err_stays(ls: Seq<Seq<char>>, j: int)
    requires
        0 <= j <= ls.len(),
        tag_lines(ls.take(j)) is Err,
    ensures
        tag_lines(ls) is Err,
    decreases ls.len() - j,
{
    if j < ls.len() {
        assert(ls.take(j + 1).drop_last() =~= ls.take(j));
        lemma_tag_lines_err_stays(ls, j + 1);
    } else {
        assert(ls.take(j) =~= ls);
    }
}

/// A text with a tag line whose tag is no known key, whatever else it holds,
/// does not parse.
pub proof fn lemma_unknown_tag_fails(text: Seq<char>, j: int)
    requires
        0 <= j < text_lines(text).len(),
        is_tag_line(text_lines(text)[j]),
        key_of(upper_of(tag_name(text_lines(text)[j]))) is None,
    ensures
        parse_spec(text) is Err,
{
    let ls = text_lines(text);
    assert(ls.take(j + 1).drop_last() =~= ls.take(j));
    assert(ls.take(j + 1).last() == ls[j]);
    lemma_tag_lines_err_stays(ls, j + 1);
}

/// A parsed field keeps the lines of its section in text order, and is
/// `Single` exactly when the section had one line, an `Array` otherwise.
pub proof fn lemma_parse_keeps_cardinality(text: Seq<char>, d: PackageDesc, k: DescKey)
    requires
        d.wf(),
        parse_spec(text) == Ok::<Map<DescKey, Seq<Seq<char>>>, Seq<char>>(d@),
    ensures
        tag_lines(text_lines(text)) is Ok,
        ({
            let section = lines_under(tag_lines(text_lines(text))->Ok_0.1, k);
            &&& d@.contains_key(k) <==> section.len() > 0
            &&& d@.contains_key(k) ==> {
                &&& d.value(k)->Some_0.lines() == section
                &&& (d.value(k)->Some_0 is Single <==> section.len() == 1)
                &&& (d.value(k)->Some_0 is Array <==> section.len() >= 2)
            }
        }),
{
    let pairs = tag_lines(text_lines(text))->Ok_0.1;
    assert(d@ == fields_of(pairs));
    assert(d@.contains_key(k) <==> fields_of(pairs).contains_key(k));
    if d@.contains_key(k) {
        assert(d.value(k)->Some_0.well_sized());
        assert(d.value(k)->Some_0.lines() == d@[k]);
        if d.value(k)->Some_0 is Array {
            let v = d.value(k)->Some_0->Array_0;
            assert(d.value(k)->Some_0.lines().len() == v@.len());
        }
    }
}

} // verus!
