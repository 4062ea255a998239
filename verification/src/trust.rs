//! Which project directories the user has trusted, and which never to ask
//! about again.
//!
//! A path that is trusted leaves the ignored paths, and the other way round;
//! a change for one path changes nothing for any other. Paths are compared
//! as texts; the caller hands over each path in its normal form and keeps
//! the store on disk.

use vstd::prelude::*;
use vstd::string::*;
use crate::error::{join2, join3, ErrorView, RazdError};
use crate::ordered_map::names_of;
use crate::text::{chars_of, lowercase, same_text, text_of, to_lowercase};

verus! {

/// What is known of a project.
#[derive(Debug, Clone, Copy, PartialEq, Eq, Structural)]
pub enum TrustStatus {
    /// The user has trusted it.
    Trusted,
    /// The user never wants to trust it, nor to be asked.
    Ignored,
    /// Nothing has been said of it.
    Unknown,
}

/// A path that was trusted, and when.
#[derive(Debug, Clone)]
pub struct TrustedEntry {
    pub path: String,
    pub trusted_at: String,
}

/// A path that was ignored, and when.
#[derive(Debug, Clone)]
pub struct IgnoredEntry {
    pub path: String,
    pub ignored_at: String,
}

/// What the store holds.
#[derive(Debug, Clone)]
pub struct TrustStoreData {
    pub version: u32,
    pub trusted: Vec<TrustedEntry>,
    pub ignored: Vec<IgnoredEntry>,
}

impl Default for TrustStoreData {
    fn default() -> (r: Self)
        ensures
            r.version == 0,
            r.trusted@.len() == 0,
            r.ignored@.len() == 0,
    {
        TrustStoreData { version: 0, trusted: Vec::new(), ignored: Vec::new() }
    }
}

/// The answer to the question whether a project is to be trusted.
#[derive(Debug, Clone, Copy, PartialEq, Eq, Structural)]
pub enum TrustResponse {
    Yes,
    No,
    Ignore,
}

/// The paths of the trusted entries, in order.
pub open spec fn trusted_paths(entries: Seq<TrustedEntry>) -> Seq<Seq<char>> {
    Seq::new(entries.len(), |i: int| entries[i].path@)
}

/// The paths of the ignored entries, in order.
pub open spec fn ignored_paths(entries: Seq<IgnoredEntry>) -> Seq<Seq<char>> {
    Seq::new(entries.len(), |i: int| entries[i].path@)
}

/// The trusted entries, each as its path and the time it was trusted at.
pub open spec fn trusted_entries(entries: Seq<TrustedEntry>) -> Seq<(Seq<char>, Seq<char>)> {
    Seq::new(entries.len(), |i: int| (entries[i].path@, entries[i].trusted_at@))
}

/// The ignored entries, each as its path and the time it was ignored at.
pub open spec fn ignored_entries(entries: Seq<IgnoredEntry>) -> Seq<(Seq<char>, Seq<char>)> {
    Seq::new(entries.len(), |i: int| (entries[i].path@, entries[i].ignored_at@))
}

/// `entries` without every entry of `path`; the others keep their order and
/// their times.
pub open spec fn entries_without(entries: Seq<(Seq<char>, Seq<char>)>, path: Seq<char>) -> Seq<
    (Seq<char>, Seq<char>),
>
    decreases entries.len(),
{
    if entries.len() == 0 {
        entries
    } else if entries.last().0 == path {
        entries_without(entries.drop_last(), path)
    } else {
        entries_without(entries.drop_last(), path).push(entries.last())
    }
}

/// `entries` with an entry of `path` at the time `now` added at its end,
/// unless `path` has an entry already.
pub open spec fn entries_with(
    entries: Seq<(Seq<char>, Seq<char>)>,
    path: Seq<char>,
    now: Seq<char>,
) -> Seq<(Seq<char>, Seq<char>)> {
    if names_of(entries).contains(path) {
        entries
    } else {
        entries.push((path, now))
    }
}

/// The paths of what is left are what is left of the paths.
pub proof fn lemma_entries_without(entries: Seq<(Seq<char>, Seq<char>)>, path: Seq<char>)
    ensures
        names_of(entries_without(entries, path)) == without(names_of(entries), path),
    decreases entries.len(),
{
    if entries.len() > 0 {
        lemma_entries_without(entries.drop_last(), path);
        assert(names_of(entries).drop_last() =~= names_of(entries.drop_last()));
        assert(names_of(entries).last() == entries.last().0);
        let rest = entries_without(entries.drop_last(), path);
        if entries.last().0 != path {
            assert(names_of(rest.push(entries.last())) =~= names_of(rest).push(entries.last().0));
        }
    } else {
        assert(names_of(entries) =~= Seq::<Seq<char>>::empty());
        assert(names_of(entries_without(entries, path)) =~= without(names_of(entries), path));
    }
}

/// `paths` without every occurrence of `path`.
pub open spec fn without(paths: Seq<Seq<char>>, path: Seq<char>) -> Seq<Seq<char>>
    decreases paths.len(),
{
    if paths.len() == 0 {
        paths
    } else if paths.last() == path {
        without(paths.drop_last(), path)
    } else {
        without(paths.drop_last(), path).push(paths.last())
    }
}

/// `paths` with `path` added at its end, unless it is there already.
pub open spec fn with_path(paths: Seq<Seq<char>>, path: Seq<char>) -> Seq<Seq<char>> {
    if paths.contains(path) {
        paths
    } else {
        paths.push(path)
    }
}

/// Nothing of `path` is left in `without(paths, path)`, and every other
/// path is in it exactly where it was in `paths`.
pub proof fn lemma_without(paths: Seq<Seq<char>>, path: Seq<char>)
    ensures
        !without(paths, path).contains(path),
        forall|p: Seq<char>| p != path ==> (without(paths, path).contains(p) <==> paths.contains(p)),
    decreases paths.len(),
{
    if paths.len() > 0 {
        let rest = paths.drop_last();
        lemma_without(rest, path);
        let w = without(paths, path);
        let wr = without(rest, path);
        assert forall|p: Seq<char>| p != path implies (w.contains(p) <==> paths.contains(p)) by {
            assert(wr.contains(p) <==> rest.contains(p));
            if paths.contains(p) {
                let i = choose|i: int| 0 <= i < paths.len() && paths[i] == p;
                if i < rest.len() {
                    assert(rest[i] == p);
                    assert(rest.contains(p));
                    assert(wr.contains(p));
                    let j = choose|j: int| 0 <= j < wr.len() && wr[j] == p;
                    assert(w[j] == p);
                } else {
                    assert(paths.last() == p);
                    assert(w.last() == p);
                }
                assert(w.contains(p));
            }
            if w.contains(p) {
                let i = choose|i: int| 0 <= i < w.len() && w[i] == p;
                if i < wr.len() {
                    assert(wr[i] == p);
                    assert(wr.contains(p));
                    assert(rest.contains(p));
                    let j = choose|j: int| 0 <= j < rest.len() && rest[j] == p;
                    assert(paths[j] == p);
                } else {
                    assert(paths.last() == p);
                    assert(paths[paths.len() - 1] == p);
                }
                assert(paths.contains(p));
            }
        }
        if w.contains(path) {
            let i = choose|i: int| 0 <= i < w.len() && w[i] == path;
            if i < wr.len() {
                assert(wr[i] == path);
                assert(wr.contains(path));
            }
        }
    }
}

/// Adding `path` leaves every other path in or out as it was.
pub proof fn lemma_with_path(paths: Seq<Seq<char>>, path: Seq<char>)
    ensures
        with_path(paths, path).contains(path),
        forall|p: Seq<char>| p != path ==> (with_path(paths, path).contains(p) <==> paths.contains(p)),
{
    let w = with_path(paths, path);
    if !paths.contains(path) {
        assert(w.last() == path);
        assert forall|p: Seq<char>| p != path implies (w.contains(p) <==> paths.contains(p)) by {
            if paths.contains(p) {
                let i = choose|i: int| 0 <= i < paths.len() && paths[i] == p;
                assert(w[i] == p);
            }
            if w.contains(p) {
                let i = choose|i: int| 0 <= i < w.len() && w[i] == p;
                assert(i < paths.len());
                assert(paths[i] == p);
            }
        }
    }
}

/// Whether one of `entries` has the path `path`.
pub fn holds_trusted(entries: &Vec<TrustedEntry>, path: &str) -> (r: bool)
    ensures
        r == trusted_paths(entries@).contains(path@),
{
    let ghost paths = trusted_paths(entries@);
    let mut i: usize = 0;
    while i < entries.len()
        invariant
            paths == trusted_paths(entries@),
            i <= entries@.len(),
            forall|j: int| 0 <= j < i ==> paths[j] != path@,
        decreases entries@.len() - i,
    {
        if same_text(entries[i].path.as_str(), path) {
            assert(paths[i as int] == path@);
            return true;
        }
        i = i + 1;
    }
    false
}

/// Whether one of `entries` has the path `path`.
pub fn holds_ignored(entries: &Vec<IgnoredEntry>, path: &str) -> (r: bool)
    ensures
        r == ignored_paths(entries@).contains(path@),
{
    let ghost paths = ignored_paths(entries@);
    let mut i: usize = 0;
    while i < entries.len()
        invariant
            paths == ignored_paths(entries@),
            i <= entries@.len(),
            forall|j: int| 0 <= j < i ==> paths[j] != path@,
        decreases entries@.len() - i,
    {
        if same_text(entries[i].path.as_str(), path) {
            assert(paths[i as int] == path@);
            return true;
        }
        i = i + 1;
    }
    false
}

/// The entries of `entries` whose path is not `path`, in order.
pub fn trusted_without(entries: &Vec<TrustedEntry>, path: &str) -> (r: Vec<TrustedEntry>)
    ensures
        trusted_paths(r@) == without(trusted_paths(entries@), path@),
        trusted_entries(r@) == entries_without(trusted_entries(entries@), path@),
{
    let ghost paths = trusted_paths(entries@);
    let ghost all = trusted_entries(entries@);
    assert(all.take(0) =~= Seq::<(Seq<char>, Seq<char>)>::empty());
    assert(trusted_entries(Seq::<TrustedEntry>::empty()) =~= Seq::<(Seq<char>, Seq<char>)>::empty());
    let mut r: Vec<TrustedEntry> = Vec::new();
    let mut i: usize = 0;
    assert(paths.take(0) =~= Seq::<Seq<char>>::empty());
    assert(trusted_paths(r@) =~= Seq::<Seq<char>>::empty());
    while i < entries.len()
        invariant
            paths == trusted_paths(entries@),
            i <= entries@.len(),
            trusted_paths(r@) == without(paths.take(i as int), path@),
            all == trusted_entries(entries@),
            trusted_entries(r@) == entries_without(all.take(i as int), path@),
        decreases entries@.len() - i,
    {
        let ghost before = trusted_paths(r@);
        let ghost before_entries = trusted_entries(r@);
        proof {
            let next = paths.take(i + 1);
            assert(next.drop_last() =~= paths.take(i as int));
            assert(next.last() == entries@[i as int].path@);
            let next_entries = all.take(i + 1);
            assert(next_entries.drop_last() =~= all.take(i as int));
            assert(next_entries.last() == (entries@[i as int].path@, entries@[i as int].trusted_at@));
        }
        if !same_text(entries[i].path.as_str(), path) {
            r.push(
                TrustedEntry {
                    path: entries[i].path.clone(),
                    trusted_at: entries[i].trusted_at.clone(),
                },
            );
            assert(trusted_paths(r@) =~= before.push(entries@[i as int].path@));
            assert(trusted_entries(r@) =~= before_entries.push(
                (entries@[i as int].path@, entries@[i as int].trusted_at@),
            ));
        }
        i = i + 1;
    }
    assert(paths.take(entries@.len() as int) =~= paths);
    assert(all.take(entries@.len() as int) =~= all);
    r
}

/// The entries of `entries` whose path is not `path`, in order.
pub fn ignored_without(entries: &Vec<IgnoredEntry>, path: &str) -> (r: Vec<IgnoredEntry>)
    ensures
        ignored_paths(r@) == without(ignored_paths(entries@), path@),
        ignored_entries(r@) == entries_without(ignored_entries(entries@), path@),
{
    let ghost paths = ignored_paths(entries@);
    let ghost all = ignored_entries(entries@);
    assert(all.take(0) =~= Seq::<(Seq<char>, Seq<char>)>::empty());
    assert(ignored_entries(Seq::<IgnoredEntry>::empty()) =~= Seq::<(Seq<char>, Seq<char>)>::empty());
    let mut r: Vec<IgnoredEntry> = Vec::new();
    let mut i: usize = 0;
    assert(paths.take(0) =~= Seq::<Seq<char>>::empty());
    assert(ignored_paths(r@) =~= Seq::<Seq<char>>::empty());
    while i < entries.len()
        invariant
            paths == ignored_paths(entries@),
            i <= entries@.len(),
            ignored_paths(r@) == without(paths.take(i as int), path@),
            all == ignored_entries(entries@),
            ignored_entries(r@) == entries_without(all.take(i as int), path@),
        decreases entries@.len() - i,
    {
        let ghost before = ignored_paths(r@);
        let ghost before_entries = ignored_entries(r@);
        proof {
            let next = paths.take(i + 1);
            assert(next.drop_last() =~= paths.take(i as int));
            assert(next.last() == entries@[i as int].path@);
            let next_entries = all.take(i + 1);
            assert(next_entries.drop_last() =~= all.take(i as int));
            assert(next_entries.last() == (entries@[i as int].path@, entries@[i as int].ignored_at@));
        }
        if !same_text(entries[i].path.as_str(), path) {
            r.push(
                IgnoredEntry {
                    path: entries[i].path.clone(),
                    ignored_at: entries[i].ignored_at.clone(),
                },
            );
            assert(ignored_paths(r@) =~= before.push(entries@[i as int].path@));
            assert(ignored_entries(r@) =~= before_entries.push(
                (entries@[i as int].path@, entries@[i as int].ignored_at@),
            ));
        }
        i = i + 1;
    }
    assert(paths.take(entries@.len() as int) =~= paths);
    assert(all.take(entries@.len() as int) =~= all);
    r
}

/// The store of trusted and ignored paths, with the place where it is kept.
#[derive(Debug, Clone)]
pub struct TrustStore {
    data: TrustStoreData,
    path: String,
}

impl TrustStore {
    /// The trusted paths, in order.
    pub closed spec fn trusted(&self) -> Seq<Seq<char>> {
        trusted_paths(self.data.trusted@)
    }

    /// The ignored paths, in order.
    pub closed spec fn ignored(&self) -> Seq<Seq<char>> {
        ignored_paths(self.data.ignored@)
    }

    /// The trusted entries, each with the time it was trusted at.
    pub closed spec fn trusted_list(&self) -> Seq<(Seq<char>, Seq<char>)> {
        trusted_entries(self.data.trusted@)
    }

    /// The ignored entries, each with the time it was ignored at.
    pub closed spec fn ignored_list(&self) -> Seq<(Seq<char>, Seq<char>)> {
        ignored_entries(self.data.ignored@)
    }

    /// The version of the store's format.
    pub closed spec fn version(&self) -> u32 {
        self.data.version
    }

    /// Where the store is kept.
    pub closed spec fn place(&self) -> Seq<char> {
        self.path@
    }

    /// The paths of the store are the paths of its entries.
    pub proof fn lemma_paths(&self)
        ensures
            self.trusted() == names_of(self.trusted_list()),
            self.ignored() == names_of(self.ignored_list()),
    {
        assert(self.trusted() =~= names_of(self.trusted_list()));
        assert(self.ignored() =~= names_of(self.ignored_list()));
    }

    /// The status that the store gives to `path`: trusted comes before
    /// ignored.
    pub open spec fn status_of(&self, path: Seq<char>) -> TrustStatus {
        if self.trusted().contains(path) {
            TrustStatus::Trusted
        } else if self.ignored().contains(path) {
            TrustStatus::Ignored
        } else {
            TrustStatus::Unknown
        }
    }

    /// A store that holds `data` and is kept at `path`.
    pub fn new(data: TrustStoreData, path: String) -> (s: Self)
        ensures
            s.trusted() == trusted_paths(data.trusted@),
            s.ignored() == ignored_paths(data.ignored@),
            s.trusted_list() == trusted_entries(data.trusted@),
            s.ignored_list() == ignored_entries(data.ignored@),
            s.version() == data.version,
            s.place() == path@,
    {
        TrustStore { data, path }
    }

    /// A store that holds nothing yet and is kept at `path`.
    pub fn empty(path: String) -> (s: Self)
        ensures
            s.trusted() == Seq::<Seq<char>>::empty(),
            s.ignored() == Seq::<Seq<char>>::empty(),
            s.trusted_list() == Seq::<(Seq<char>, Seq<char>)>::empty(),
            s.ignored_list() == Seq::<(Seq<char>, Seq<char>)>::empty(),
            s.version() == 1,
            s.place() == path@,
    {
        let s = TrustStore {
            data: TrustStoreData { version: 1, trusted: Vec::new(), ignored: Vec::new() },
            path,
        };
        assert(s.trusted() =~= Seq::<Seq<char>>::empty());
        assert(s.ignored() =~= Seq::<Seq<char>>::empty());
        assert(s.trusted_list() =~= Seq::<(Seq<char>, Seq<char>)>::empty());
        assert(s.ignored_list() =~= Seq::<(Seq<char>, Seq<char>)>::empty());
        s
    }

    /// What the store holds, to be written out.
    pub fn data(&self) -> (d: &TrustStoreData)
        ensures
            trusted_paths(d.trusted@) == self.trusted(),
            ignored_paths(d.ignored@) == self.ignored(),
            trusted_entries(d.trusted@) == self.trusted_list(),
            ignored_entries(d.ignored@) == self.ignored_list(),
            d.version == self.version(),
    {
        &self.data
    }

    /// Where the store is kept.
    pub fn path(&self) -> (r: &str)
        ensures
            r@ == self.place(),
    {
        self.path.as_str()
    }

    /// Whether `path` is trusted.
    pub fn is_trusted(&self, path: &str) -> (r: bool)
        ensures
            r == self.trusted().contains(path@),
    {
        holds_trusted(&self.data.trusted, path)
    }

    /// Whether `path` is ignored.
    pub fn is_ignored(&self, path: &str) -> (r: bool)
        ensures
            r == self.ignored().contains(path@),
    {
        holds_ignored(&self.data.ignored, path)
    }

    /// The status of `path`.
    pub fn get_status(&self, path: &str) -> (r: TrustStatus)
        ensures
            r == self.status_of(path@),
    {
        if self.is_trusted(path) {
            TrustStatus::Trusted
        } else if self.is_ignored(path) {
            TrustStatus::Ignored
        } else {
            TrustStatus::Unknown
        }
    }

    /// Trusts `path` from the time `now` on: it leaves the ignored paths and
    /// joins the trusted ones, unless it is among them already.
    pub fn add_trusted(&mut self, path: &str, now: &str)
        ensures
            final(self).ignored_list() == entries_without(old(self).ignored_list(), path@),
            final(self).trusted_list() == entries_with(old(self).trusted_list(), path@, now@),
            final(self).version() == old(self).version(),
            final(self).place() == old(self).place(),
            final(self).ignored() == without(old(self).ignored(), path@),
            final(self).trusted() == with_path(old(self).trusted(), path@),
            final(self).status_of(path@) == TrustStatus::Trusted,
            !final(self).ignored().contains(path@),
            forall|p: Seq<char>|
                p != path@ ==> final(self).status_of(p) == old(self).status_of(p),
    {
        let ghost trusted0 = self.trusted();
        let ghost trusted_list0 = self.trusted_list();
        proof {
            lemma_without(self.ignored(), path@);
            lemma_with_path(self.trusted(), path@);
            self.lemma_paths();
        }
        self.data.ignored = ignored_without(&self.data.ignored, path);
        if !holds_trusted(&self.data.trusted, path) {
            self.data.trusted.push(
                TrustedEntry { path: String::from_str(path), trusted_at: String::from_str(now) },
            );
            assert(self.trusted() =~= trusted0.push(path@));
            assert(self.trusted().last() == path@);
            assert(self.trusted_list() =~= trusted_list0.push((path@, now@)));
        }
    }

    /// Takes `path` from the trusted paths.
    pub fn remove_trusted(&mut self, path: &str)
        ensures
            final(self).trusted_list() == entries_without(old(self).trusted_list(), path@),
            final(self).ignored_list() == old(self).ignored_list(),
            final(self).version() == old(self).version(),
            final(self).place() == old(self).place(),
            final(self).trusted() == without(old(self).trusted(), path@),
            final(self).ignored() == old(self).ignored(),
            !final(self).trusted().contains(path@),
            forall|p: Seq<char>|
                p != path@ ==> final(self).status_of(p) == old(self).status_of(p),
    {
        proof {
            lemma_without(self.trusted(), path@);
        }
        self.data.trusted = trusted_without(&self.data.trusted, path);
    }

    /// Ignores `path` from the time `now` on: it leaves the trusted paths
    /// and joins the ignored ones, unless it is among them already.
    pub fn add_ignored(&mut self, path: &str, now: &str)
        ensures
            final(self).trusted_list() == entries_without(old(self).trusted_list(), path@),
            final(self).ignored_list() == entries_with(old(self).ignored_list(), path@, now@),
            final(self).version() == old(self).version(),
            final(self).place() == old(self).place(),
            final(self).trusted() == without(old(self).trusted(), path@),
            final(self).ignored() == with_path(old(self).ignored(), path@),
            final(self).status_of(path@) == TrustStatus::Ignored,
            !final(self).trusted().contains(path@),
            forall|p: Seq<char>|
                p != path@ ==> final(self).status_of(p) == old(self).status_of(p),
    {
        let ghost ignored0 = self.ignored();
        let ghost ignored_list0 = self.ignored_list();
        proof {
            lemma_without(self.trusted(), path@);
            lemma_with_path(self.ignored(), path@);
            self.lemma_paths();
        }
        self.data.trusted = trusted_without(&self.data.trusted, path);
        if !holds_ignored(&self.data.ignored, path) {
            self.data.ignored.push(
                IgnoredEntry { path: String::from_str(path), ignored_at: String::from_str(now) },
            );
            assert(self.ignored() =~= ignored0.push(path@));
            assert(self.ignored().last() == path@);
            assert(self.ignored_list() =~= ignored_list0.push((path@, now@)));
        }
    }

    /// Takes `path` from the ignored paths.
    pub fn remove_ignored(&mut self, path: &str)
        ensures
            final(self).ignored_list() == entries_without(old(self).ignored_list(), path@),
            final(self).trusted_list() == old(self).trusted_list(),
            final(self).version() == old(self).version(),
            final(self).place() == old(self).place(),
            final(self).ignored() == without(old(self).ignored(), path@),
            final(self).trusted() == old(self).trusted(),
            !final(self).ignored().contains(path@),
            forall|p: Seq<char>|
                p != path@ ==> final(self).status_of(p) == old(self).status_of(p),
    {
        proof {
            lemma_without(self.ignored(), path@);
        }
        self.data.ignored = ignored_without(&self.data.ignored, path);
    }

    /// Takes `path` from both lists: nothing is known of it afterwards.
    pub fn remove_all(&mut self, path: &str)
        ensures
            final(self).trusted_list() == entries_without(old(self).trusted_list(), path@),
            final(self).ignored_list() == entries_without(old(self).ignored_list(), path@),
            final(self).version() == old(self).version(),
            final(self).place() == old(self).place(),
            final(self).trusted() == without(old(self).trusted(), path@),
            final(self).ignored() == without(old(self).ignored(), path@),
            final(self).status_of(path@) == TrustStatus::Unknown,
            forall|p: Seq<char>|
                p != path@ ==> final(self).status_of(p) == old(self).status_of(p),
    {
        proof {
            lemma_without(self.trusted(), path@);
            lemma_without(self.ignored(), path@);
        }
        self.data.trusted = trusted_without(&self.data.trusted, path);
        self.data.ignored = ignored_without(&self.data.ignored, path);
    }
}

/// `path` with `/` for every `\`.
pub open spec fn slashes_of(path: Seq<char>) -> Seq<char> {
    Seq::new(path.len(), |i: int| if path[i] == '\\' {
        '/'
    } else {
        path[i]
    })
}

/// The form in which a path is compared: as it is, but on Windows in lower
/// case and with `/` for `\`.
pub open spec fn normal_path_of(path: Seq<char>, windows: bool) -> Seq<char> {
    if windows {
        slashes_of(lowercase(path))
    } else {
        path
    }
}

/// The form in which `path` is compared. `path` is the absolute path with
/// links resolved, where that could be had.
pub fn normalize_path(path: &str, windows: bool) -> (r: String)
    ensures
        r@ == normal_path_of(path@, windows),
{
    if !windows {
        return String::from_str(path);
    }
    let lower = to_lowercase(path);
    let chars = chars_of(lower.as_str());
    let mut out: Vec<char> = Vec::new();
    let mut i: usize = 0;
    while i < chars.len()
        invariant
            i <= chars@.len(),
            out@.len() == i,
            forall|j: int|
                0 <= j < i ==> out@[j] == (if chars@[j] == '\\' {
                    '/'
                } else {
                    chars@[j]
                }),
        decreases chars@.len() - i,
    {
        let c = chars[i];
        if c == '\\' {
            out.push('/');
        } else {
            out.push(c);
        }
        i = i + 1;
    }
    assert(out@ =~= slashes_of(chars@));
    text_of(&out)
}

/// The answer that stands at position `selection` of the list of answers:
/// yes, no, ignore. A position outside the list counts as no.
pub fn trust_response_of(selection: usize) -> (r: TrustResponse)
    ensures
        r == (if selection == 0 {
            TrustResponse::Yes
        } else if selection == 2 {
            TrustResponse::Ignore
        } else {
            TrustResponse::No
        }),
{
    if selection == 0 {
        TrustResponse::Yes
    } else if selection == 2 {
        TrustResponse::Ignore
    } else {
        TrustResponse::No
    }
}

/// What is to happen before a command acts on a project.
#[derive(Debug, Clone)]
pub enum TrustDecision {
    /// Go on: the project has no configuration, or it is trusted.
    Proceed,
    /// Trust the project without asking, then go on.
    AutoTrust,
    /// Ask the user.
    Prompt,
    /// Stop with this error.
    Blocked(RazdError),
}

pub enum TrustDecisionView {
    Proceed,
    AutoTrust,
    Prompt,
    Blocked(ErrorView),
}

impl View for TrustDecision {
    type V = TrustDecisionView;

    open spec fn view(&self) -> TrustDecisionView {
        match *self {
            TrustDecision::Proceed => TrustDecisionView::Proceed,
            TrustDecision::AutoTrust => TrustDecisionView::AutoTrust,
            TrustDecision::Prompt => TrustDecisionView::Prompt,
            TrustDecision::Blocked(e) => TrustDecisionView::Blocked(e@),
        }
    }
}

/// The decision for a project: without configuration or trusted it goes
/// on; ignored it is blocked; otherwise it is trusted without asking where
/// every question is answered with yes, else the user is asked.
pub open spec fn trust_decision_of(
    has_config: bool,
    status: TrustStatus,
    auto_yes: bool,
    path: Seq<char>,
) -> TrustDecisionView {
    if !has_config {
        TrustDecisionView::Proceed
    } else {
        match status {
            TrustStatus::Trusted => TrustDecisionView::Proceed,
            TrustStatus::Ignored => TrustDecisionView::Blocked(
                ErrorView::Config(
                    "Project is ignored: "@ + path
                        + "\n\nThis project was previously marked as ignored.\nTo remove from ignore list, run:\n  razd trust --untrust\n  razd trust"@,
                ),
            ),
            TrustStatus::Unknown => if auto_yes {
                TrustDecisionView::AutoTrust
            } else {
                TrustDecisionView::Prompt
            },
        }
    }
}

/// Decides what is to happen before a command acts on the project at
/// `path`.
pub fn ensure_trusted(has_config: bool, status: TrustStatus, auto_yes: bool, path: &str) -> (r:
    TrustDecision)
    ensures
        r@ == trust_decision_of(has_config, status, auto_yes, path@),
{
    if !has_config {
        return TrustDecision::Proceed;
    }
    match status {
        TrustStatus::Trusted => TrustDecision::Proceed,
        TrustStatus::Ignored => {
            let msg = join3(
                "Project is ignored: ",
                path,
                "\n\nThis project was previously marked as ignored.\nTo remove from ignore list, run:\n  razd trust --untrust\n  razd trust",
            );
            TrustDecision::Blocked(RazdError::config(msg.as_str()))
        },
        TrustStatus::Unknown => {
            if auto_yes {
                TrustDecision::AutoTrust
            } else {
                TrustDecision::Prompt
            }
        },
    }
}

/// What follows the user's answer: after a yes the project is trusted and
/// the command goes on; after a no it stops; after an ignore the project is
/// ignored and the command stops.
pub open spec fn after_answer_of(response: TrustResponse, path: Seq<char>) -> Result<
    (),
    ErrorView,
> {
    match response {
        TrustResponse::Yes => Ok(()),
        TrustResponse::No => Err(
            ErrorView::Config(
                "Project is not trusted: "@ + path
                    + "\n\nTo trust this project, run:\n  razd trust\n\nOr run with --yes to auto-trust:\n  razd --yes up"@,
            ),
        ),
        TrustResponse::Ignore => Err(
            ErrorView::Config("Project added to ignore list: "@ + path),
        ),
    }
}

/// Applies the user's answer for the project at `path` to the store, at the
/// time `now`, and says whether the command may go on.
pub fn apply_trust_answer(store: &mut TrustStore, response: TrustResponse, path: &str, now: &str) -> (r:
    Result<(), RazdError>)
    ensures
        crate::mise_validator::verdict_view(r) == after_answer_of(response, path@),
        final(store).version() == old(store).version(),
        final(store).place() == old(store).place(),
        final(store).trusted_list() == match response {
            TrustResponse::Yes => entries_with(old(store).trusted_list(), path@, now@),
            TrustResponse::Ignore => entries_without(old(store).trusted_list(), path@),
            TrustResponse::No => old(store).trusted_list(),
        },
        final(store).ignored_list() == match response {
            TrustResponse::Yes => entries_without(old(store).ignored_list(), path@),
            TrustResponse::Ignore => entries_with(old(store).ignored_list(), path@, now@),
            TrustResponse::No => old(store).ignored_list(),
        },
        response == TrustResponse::Yes ==> final(store).status_of(path@) == TrustStatus::Trusted,
        response == TrustResponse::Ignore ==> final(store).status_of(path@)
            == TrustStatus::Ignored,
        response == TrustResponse::No ==> final(store).trusted() == old(store).trusted()
            && final(store).ignored() == old(store).ignored(),
{
    match response {
        TrustResponse::Yes => {
            store.add_trusted(path, now);
            Ok(())
        },
        TrustResponse::No => {
            let msg = join3(
                "Project is not trusted: ",
                path,
                "\n\nTo trust this project, run:\n  razd trust\n\nOr run with --yes to auto-trust:\n  razd --yes up",
            );
            Err(RazdError::config(msg.as_str()))
        },
        TrustResponse::Ignore => {
            store.add_ignored(path, now);
            let msg = join2("Project added to ignore list: ", path);
            Err(RazdError::config(msg.as_str()))
        },
    }
}

} // verus!
