use vstd::prelude::*;

use crate::text::str_eq;

verus! {

/// One component of an archive entry's path.
pub enum PathPart {
    /// A plain name.
    Normal(String),
    /// A root, prefix, `.` or `..` component.
    Other,
}

/// What an archive entry means to the open package record.
#[derive(Debug, Clone, Copy, PartialEq, Eq, Structural)]
pub enum Route {
    /// Carries nothing for any record.
    Skip,
    /// Starts a new record under its root label.
    Open,
    /// Its content belongs to the open record's metadata text.
    Desc,
    /// Its content belongs to the open record's file listing.
    Files,
}

/// All raw text of one package: its root label, metadata text and file listing.
pub struct PackageEntry {
    pub root: String,
    pub desc: String,
    pub files: String,
}

/// A package record as (root label, metadata text, file listing).
pub type RecordView = (Seq<char>, Seq<char>, Seq<char>);

/// An archive entry as (path, content).
pub type EntryView = (Seq<PathPart>, Seq<char>);

impl PackageEntry {
    pub open spec fn view(&self) -> RecordView {
        (self.root@, self.desc@, self.files@)
    }
}

pub open spec fn record_view(o: Option<PackageEntry>) -> Option<RecordView> {
    match o {
        Some(e) => Some(e@),
        None => None,
    }
}

pub open spec fn label_of(p: PathPart) -> Option<Seq<char>> {
    match p {
        PathPart::Normal(s) => Some(s@),
        PathPart::Other => None,
    }
}

pub open spec fn open_label(st: Option<RecordView>) -> Option<Seq<char>> {
    match st {
        Some(r) => Some(r.0),
        None => None,
    }
}

/// How an entry with `path` is routed while the record labelled `open` is open.
pub open spec fn route_spec(open: Option<Seq<char>>, path: Seq<PathPart>) -> Route {
    if path.len() == 0 {
        Route::Skip
    } else {
        match label_of(path[0]) {
            None => Route::Skip,
            Some(root) => {
                if root.len() == 0 {
                    Route::Skip
                } else if open != Some(root) {
                    Route::Open
                } else if path.len() < 2 {
                    Route::Skip
                } else if label_of(path[1]) == Some("desc"@) {
                    Route::Desc
                } else if label_of(path[1]) == Some("files"@) {
                    Route::Files
                } else {
                    Route::Skip
                }
            },
        }
    }
}

/// One entry applied to the open record: the new open record, and the
/// record finished by it.
pub open spec fn feed_spec(st: Option<RecordView>, path: Seq<PathPart>, content: Seq<char>) -> (
    Option<RecordView>,
    Option<RecordView>,
) {
    match route_spec(open_label(st), path) {
        Route::Skip => (st, None),
        Route::Open => (Some((label_of(path[0])->Some_0, Seq::empty(), Seq::empty())), st),
        Route::Desc => {
            let r = st->Some_0;
            (Some((r.0, r.1 + content, r.2)), None)
        },
        Route::Files => {
            let r = st->Some_0;
            (Some((r.0, r.1, r.2 + content)), None)
        },
    }
}

/// The entries applied in order: the open record after them, and the
/// records they finished.
pub open spec fn run_spec(st: Option<RecordView>, entries: Seq<EntryView>) -> (
    Option<RecordView>,
    Seq<RecordView>,
)
    decreases entries.len(),
{
    if entries.len() == 0 {
        (st, Seq::empty())
    } else {
        let (s1, out) = run_spec(st, entries.drop_last());
        let (s2, done) = feed_spec(s1, entries.last().0, entries.last().1);
        (
            s2,
            match done {
                Some(r) => out.push(r),
                None => out,
            },
        )
    }
}

/// Every record of an entry stream, the last one finished at its end.
pub open spec fn group_spec(entries: Seq<EntryView>) -> Seq<RecordView> {
    let (st, out) = run_spec(None, entries);
    match st {
        Some(r) => out.push(r),
        None => out,
    }
}

/// Groups a stream of archive entries into package records, one open at a time.
pub struct Grouper {
    current: Option<PackageEntry>,
}

impl Grouper {
    pub closed spec fn view(&self) -> Option<RecordView> {
        record_view(self.current)
    }

    /// A grouper with no open record.
    pub fn new() -> (r: Grouper)
        ensures
            r@ is None,
    {
        Grouper { current: None }
    }

    /// How an entry with `path` would be routed now.
    pub fn route(&self, path: &Vec<PathPart>) -> (r: Route)
        ensures
            r == route_spec(open_label(self@), path@),
    {
        if path.len() == 0 {
            return Route::Skip;
        }
        let root = match &path[0] {
            PathPart::Normal(s) => s,
            PathPart::Other => {
                return Route::Skip;
            },
        };
        if root.as_str().is_empty() {
            return Route::Skip;
        }
        let same = match &self.current {
            Some(e) => str_eq(e.root.as_str(), root.as_str()),
            None => false,
        };
        if !same {
            return Route::Open;
        }
        if path.len() < 2 {
            return Route::Skip;
        }
        match &path[1] {
            PathPart::Normal(c) => {
                if str_eq(c.as_str(), "desc") {
                    Route::Desc
                } else if str_eq(c.as_str(), "files") {
                    Route::Files
                } else {
                    Route::Skip
                }
            },
            PathPart::Other => Route::Skip,
        }
    }

    /// Applies one entry; returns the record that a new root label finishes.
    /// `content` is read only for an entry routed to `Desc` or `Files`.
    pub fn feed(&mut self, path: &Vec<PathPart>, content: &str) -> (r: Option<PackageEntry>)
        ensures
            (final(self)@, record_view(r)) == feed_spec(old(self)@, path@, content@),
    {
        match self.route(path) {
            Route::Skip => None,
            Route::Open => {
                let root = match &path[0] {
                    PathPart::Normal(s) => s.clone(),
                    PathPart::Other => String::new(),
                };
                let next = PackageEntry { root, desc: String::new(), files: String::new() };
                let done = self.current.take();
                self.current = Some(next);
                done
            },
            Route::Desc => {
                let mut e = self.current.take().unwrap();
                e.desc.append(content);
                self.current = Some(e);
                None
            },
            Route::Files => {
                let mut e = self.current.take().unwrap();
                e.files.append(content);
                self.current = Some(e);
                None
            },
        }
    }

    /// Ends the stream: returns the open record, if any.
    pub fn finish(&mut self) -> (r: Option<PackageEntry>)
        ensures
            record_view(r) == old(self)@,
            final(self)@ is None,
    {
        self.current.take()
    }
}


/// The content of those entries whose second path component is `which`, joined in order.
pub open spec fn child_text(children: Seq<EntryView>, which: Seq<char>) -> Seq<char>
    decreases children.len(),
{
    if children.len() == 0 {
        Seq::empty()
    } else {
        let e = children.last();
        let rest = child_text(children.drop_last(), which);
        if e.0.len() >= 2 && label_of(e.0[1]) == Some(which) {
            rest + e.1
        } else {
            rest
        }
    }
}

/// The root label of a group of entries: that of its first entry.
pub open spec fn group_label(g: Seq<EntryView>) -> Seq<char> {
    label_of(g[0].0[0])->Some_0
}

/// A group is a bare root marker followed by entries under the same non-empty label.
pub open spec fn group_ok(g: Seq<EntryView>) -> bool {
    &&& g.len() > 0
    &&& g[0].0.len() == 1
    &&& label_of(g[0].0[0]) is Some
    &&& group_label(g).len() > 0
    &&& forall|i: int|
        0 <= i < g.len() ==> #[trigger] g[i].0.len() >= 1 && label_of(g[i].0[0]) == Some(
            group_label(g),
        )
}

/// The record that a group stands for.
pub open spec fn group_record(g: Seq<EntryView>) -> RecordView {
    (group_label(g), child_text(g.drop_first(), "desc"@), child_text(g.drop_first(), "files"@))
}

/// The groups' entries one after another.
pub open spec fn concat_groups(gs: Seq<Seq<EntryView>>) -> Seq<EntryView>
    decreases gs.len(),
{
    if gs.len() == 0 {
        Seq::empty()
    } else {
        concat_groups(gs.drop_last()) + gs.last()
    }
}

proof fn lemma_run_concat(st: Option<RecordView>, a: Seq<EntryView>, b: Seq<EntryView>)
    ensures
        run_spec(st, a + b) == (
            run_spec(run_spec(st, a).0, b).0,
            run_spec(st, a).1 + run_spec(run_spec(st, a).0, b).1,
        ),
    decreases b.len(),
{
    if b.len() == 0 {
        assert(a + b =~= a);
        assert(run_spec(st, a).1 + Seq::<RecordView>::empty() =~= run_spec(st, a).1);
    } else {
        assert((a + b).drop_last() =~= a + b.drop_last());
        assert((a + b).last() == b.last());
        lemma_run_concat(st, a, b.drop_last());
        let mid = run_spec(st, a);
        let tail = run_spec(mid.0, b.drop_last());
        let (s2, done) = feed_spec(tail.0, b.last().0, b.last().1);
        match done {
            Some(r) => {
                assert(mid.1 + tail.1.push(r) =~= (mid.1 + tail.1).push(r));
            },
            None => {},
        }
    }
}

proof fn lemma_run_children(label: Seq<char>, d: Seq<char>, f: Seq<char>, children: Seq<EntryView>)
    requires
        label.len() > 0,
        forall|i: int|
            0 <= i < children.len() ==> #[trigger] children[i].0.len() >= 1 && label_of(
                children[i].0[0],
            ) == Some(label),
    ensures
        run_spec(Some((label, d, f)), children) == (
            Some((label, d + child_text(children, "desc"@), f + child_text(children, "files"@))),
            Seq::<RecordView>::empty(),
        ),
    decreases children.len(),
{
    if children.len() == 0 {
        assert(d + Seq::<char>::empty() =~= d);
        assert(f + Seq::<char>::empty() =~= f);
    } else {
        let init = children.drop_last();
        assert forall|i: int| 0 <= i < init.len() implies #[trigger] init[i].0.len() >= 1
            && label_of(init[i].0[0]) == Some(label) by {
            assert(init[i] == children[i]);
        }
        lemma_run_children(label, d, f, init);
        let e = children.last();
        assert(e == children[children.len() - 1]);
        let dd = child_text(init, "desc"@);
        let ff = child_text(init, "files"@);
        assert(d + (dd + e.1) =~= (d + dd) + e.1);
        assert(f + (ff + e.1) =~= (f + ff) + e.1);
        if e.0.len() >= 2 && label_of(e.0[1]) == Some("desc"@) && label_of(e.0[1]) == Some(
            "files"@,
        ) {
            assert("desc"@ == "files"@);
            reveal_strlit("desc");
            reveal_strlit("files");
            assert("desc"@[0] != "files"@[0]);
        }
    }
}

proof fn lemma_run_group(st: Option<RecordView>, g: Seq<EntryView>)
    requires
        group_ok(g),
        open_label(st) != Some(group_label(g)),
    ensures
        run_spec(st, g) == (
            Some(group_record(g)),
            match st {
                Some(r) => seq![r],
                None => Seq::<RecordView>::empty(),
            },
        ),
{
    let first = seq![g[0]];
    let rest = g.drop_first();
    assert(first + rest =~= g);
    assert(first.drop_last() =~= Seq::<EntryView>::empty());
    assert(first.last() == g[0]);
    assert(run_spec(st, first.drop_last()) == (st, Seq::<RecordView>::empty()));
    assert(route_spec(open_label(st), g[0].0) == Route::Open);
    let opened = (group_label(g), Seq::<char>::empty(), Seq::<char>::empty());
    assert(run_spec(st, first).0 == Some(opened));
    assert(run_spec(st, first).1 =~= match st {
        Some(r) => seq![r],
        None => Seq::<RecordView>::empty(),
    });
    assert forall|i: int| 0 <= i < rest.len() implies #[trigger] rest[i].0.len() >= 1
        && label_of(rest[i].0[0]) == Some(group_label(g)) by {
        assert(rest[i] == g[i + 1]);
    }
    lemma_run_children(group_label(g), Seq::empty(), Seq::empty(), rest);
    assert(Seq::<char>::empty() + child_text(rest, "desc"@) =~= child_text(rest, "desc"@));
    assert(Seq::<char>::empty() + child_text(rest, "files"@) =~= child_text(rest, "files"@));
    lemma_run_concat(st, first, rest);
    assert(run_spec(st, first).1 + Seq::<RecordView>::empty() =~= run_spec(st, first).1);
}

proof fn lemma_run_groups(gs: Seq<Seq<EntryView>>)
    requires
        gs.len() > 0,
        forall|i: int| 0 <= i < gs.len() ==> group_ok(#[trigger] gs[i]),
        forall|i: int| 0 < i < gs.len() ==> group_label(#[trigger] gs[i]) != group_label(gs[i - 1]),
    ensures
        run_spec(None, concat_groups(gs)) == (
            Some(group_record(gs.last())),
            gs.drop_last().map_values(|g: Seq<EntryView>| group_record(g)),
        ),
    decreases gs.len(),
{
    let init = gs.drop_last();
    let g = gs.last();
    assert(group_ok(gs[gs.len() - 1]));
    if gs.len() == 1 {
        assert(init =~= Seq::<Seq<EntryView>>::empty());
        assert(concat_groups(init) =~= Seq::<EntryView>::empty());
        assert(concat_groups(gs) =~= g);
        lemma_run_group(None, g);
        assert(init.map_values(|g: Seq<EntryView>| group_record(g)) =~= Seq::<RecordView>::empty());
    } else {
        assert forall|i: int| 0 <= i < init.len() implies group_ok(#[trigger] init[i]) by {
            assert(init[i] == gs[i]);
        }
        assert forall|i: int| 0 < i < init.len() implies group_label(#[trigger] init[i])
            != group_label(init[i - 1]) by {
            assert(init[i] == gs[i]);
            assert(init[i - 1] == gs[i - 1]);
        }
        lemma_run_groups(init);
        assert(init.last() == gs[gs.len() - 2]);
        assert(group_label(gs[gs.len() - 1]) != group_label(gs[gs.len() - 2]));
        let prev = run_spec(None, concat_groups(init));
        lemma_run_group(prev.0, g);
        lemma_run_concat(None, concat_groups(init), g);
        assert(init.drop_last().map_values(|g: Seq<EntryView>| group_record(g)).push(
            group_record(init.last()),
        ) =~= init.map_values(|g: Seq<EntryView>| group_record(g)));
    }
}

/// Entries that come as groups, each a bare root marker followed by entries
/// under the same label, with each label different from the one before it,
/// give one record per group, in order, holding its label and the joined
/// content of exactly its own `desc` and `files` entries.
pub proof fn lemma_contiguous_groups(gs: Seq<Seq<EntryView>>)
    requires
        forall|i: int| 0 <= i < gs.len() ==> group_ok(#[trigger] gs[i]),
        forall|i: int| 0 < i < gs.len() ==> group_label(#[trigger] gs[i]) != group_label(gs[i - 1]),
    ensures
        group_spec(concat_groups(gs)) == gs.map_values(|g: Seq<EntryView>| group_record(g)),
        group_spec(concat_groups(gs)).len() == gs.len(),
{
    if gs.len() == 0 {
        assert(group_spec(concat_groups(gs)) =~= gs.map_values(
            |g: Seq<EntryView>| group_record(g),
        ));
    } else {
        lemma_run_groups(gs);
        assert(gs.drop_last().map_values(|g: Seq<EntryView>| group_record(g)).push(
            group_record(gs.last()),
        ) =~= gs.map_values(|g: Seq<EntryView>| group_record(g)));
    }
}

} // verus!
