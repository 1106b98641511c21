//! The backend that serves a directory tree of the local disk. Every request
//! path is resolved below the root before the platform sees it; a path that
//! resolves elsewhere is refused.

use crate::error::Error;
use crate::fileinfo::Fileinfo;
use crate::metadata::Metadata;
use crate::path::{
    has_no_parent, is_below, is_parent, join, last_component, lemma_absolute_without_parent,
    lemma_join_components, lemma_strip_prefix_components, lemma_strip_root, spec_absolute,
    spec_components, spec_is_absolute, spec_is_below, spec_join, spec_last_component,
    spec_relative, spec_starts_with, spec_strip_prefix, spec_strip_root, strip_prefix,
    strip_root, SEPARATOR,
};
use vstd::prelude::*;

verus! {

/// What a canonical path resolves to under `root`: itself where it is `root`
/// or a descendant of it, and a `PathError` anywhere else.
pub open spec fn spec_contain(root: Seq<char>, canonical: Seq<char>) -> Result<Seq<char>, Error> {
    if spec_is_below(canonical, root) {
        Ok(canonical)
    } else {
        Err(Error::PathError)
    }
}

/// Where the request `path` leads under `root` by its names alone, before
/// any symbolic link is followed: the path is joined to the root, brought
/// into absolute form and checked to be the root or a descendant of it.
pub open spec fn spec_lexical_path(root: Seq<char>, path: Seq<char>) -> Result<Seq<char>, Error> {
    match spec_absolute(spec_join(root, spec_strip_root(path))) {
        Some(canonical) => spec_contain(root, canonical),
        None => Err(Error::PathError),
    }
}

/// What following the symbolic links of a path on disk led to.
#[derive(Clone, Debug, PartialEq, Eq)]
pub enum OnDisk {
    /// The path names something. With every link followed, it is this path.
    Existing(String),
    /// The path names nothing yet. With every link followed, the directory
    /// that would hold it is this path.
    Missing(String),
    /// The links cannot be followed to an end: one of them leads nowhere, or
    /// the directory that would hold the path does not exist.
    Unresolved,
}

/// The place on disk that a request denotes once symbolic links are followed:
/// `lexical` is what the request resolved to before, `found` what the disk
/// holds there. What exists must itself be the root or a descendant of it;
/// what does not exist yet must be a name in such a directory.
pub open spec fn spec_confirm(root: Seq<char>, lexical: Seq<char>, found: OnDisk) -> Result<
    Seq<char>,
    Error,
> {
    match found {
        OnDisk::Existing(place) => spec_contain(root, place@),
        OnDisk::Missing(dir) => spec_contain(root, spec_join(dir@, spec_last_component(lexical))),
        OnDisk::Unresolved => Err(Error::PathError),
    }
}

/// What three probes of the disk say of a path: `resolved` is the path with
/// every symbolic link followed, where the platform can follow them to an
/// end; `exists` tells whether the path names anything at all, be it a link
/// that leads nowhere; `parent` is the directory that holds the path, with
/// every link followed. What can be followed exists; what exists and cannot
/// be followed is unresolved; what does not exist is missing from its
/// directory, where that can be followed.
pub open spec fn spec_on_disk(resolved: Option<String>, exists: bool, parent: Option<String>) -> OnDisk {
    match resolved {
        Some(place) => OnDisk::Existing(place),
        None => if exists {
            OnDisk::Unresolved
        } else {
            match parent {
                Some(dir) => OnDisk::Missing(dir),
                None => OnDisk::Unresolved,
            }
        },
    }
}

/// The place on disk that the request `path` denotes under `root`, with every
/// symbolic link followed: `found` is what the disk holds where the names of
/// the request lead. A request whose names lead out of the root is refused
/// whatever the disk holds; one whose names stay inside is refused where a
/// link leads out.
pub open spec fn spec_full_path(root: Seq<char>, path: Seq<char>, found: OnDisk) -> Result<
    Seq<char>,
    Error,
> {
    match spec_lexical_path(root, path) {
        Ok(lexical) => spec_confirm(root, lexical, found),
        Err(e) => Err(e),
    }
}

/// The two ends of a rename, once each is resolved: both places where both
/// resolved, else the failure of the source, else that of the target.
pub open spec fn spec_rename_ends(from: Result<String, Error>, to: Result<String, Error>) -> Result<
    (String, String),
    Error,
> {
    match (from, to) {
        (Err(e), _) => Err(e),
        (Ok(_), Err(e)) => Err(e),
        (Ok(source), Ok(target)) => Ok((source, target)),
    }
}

/// What a rename may go on with, given what the platform said of its source:
/// nothing but a regular file is renamed.
pub open spec fn spec_check_rename<M: Metadata>(source: Result<M, std::io::Error>) -> Result<
    (),
    Error,
> {
    match source {
        Ok(stat) => if stat.view().is_file {
            Ok(())
        } else {
            Err(Error::IOError)
        },
        Err(_) => Err(Error::IOError),
    }
}

/// One entry of a listing under `root`: nothing where the metadata could not
/// be read or the entry does not lie below `root`, else the path relative to
/// `root` with the metadata.
pub open spec fn spec_list_entry<M: Metadata>(
    root: Seq<char>,
    found: (String, Result<M, std::io::Error>),
) -> Option<(Seq<char>, M)> {
    match (found.1, spec_strip_prefix(found.0@, root)) {
        (Ok(metadata), Some(relative)) => Some((relative, metadata)),
        _ => None,
    }
}

/// The listing under `root` of what was found in a directory: the entries
/// below `root` whose metadata could be read, in the order in which they were
/// found.
pub open spec fn spec_list<M: Metadata>(
    root: Seq<char>,
    found: Seq<(String, Result<M, std::io::Error>)>,
) -> Seq<(Seq<char>, M)>
    decreases found.len(),
{
    if found.len() == 0 {
        Seq::empty()
    } else {
        let head = spec_list(root, found.drop_last());
        match spec_list_entry(root, found.last()) {
            Some(entry) => head.push(entry),
            None => head,
        }
    }
}

/// The path and the metadata of each entry.
pub open spec fn shown<M: Metadata>(entries: Seq<Fileinfo<M>>) -> Seq<(Seq<char>, M)> {
    entries.map_values(|info: Fileinfo<M>| (info.path@, info.metadata))
}

/// The absolute form of `path`: no `.`, every `..` resolved against the name
/// before it, and the working directory in front of a relative path.
///
/// Trusted: calls `path_abs::PathAbs::new` and hands back its path as text,
/// or its error as the `std::io::Error` that `path_abs` converts it to. On
/// Unix and on a path that begins with a separator, `PathAbs::new` starts at
/// the root, pushes each name, pops one for each `..` and fails where there
/// is none to pop; it reads nothing but its argument. Of a relative path the
/// contract states nothing: the result depends on the working directory.
#[verifier::external_body]
fn absolute(path: &str) -> (r: Result<String, std::io::Error>)
    ensures
        spec_is_absolute(path@) ==> match r {
            Ok(text) => spec_absolute(path@) == Some(text@),
            Err(_) => spec_absolute(path@) is None,
        },
{
    match path_abs::PathAbs::new(path) {
        Ok(abs) => Ok(abs.as_path().to_string_lossy().into_owned()),
        Err(err) => Err(std::io::Error::from(err)),
    }
}

/// The canonical form of `path`, or a `PathError` where it has none.
fn canonicalize(path: &str) -> (r: Result<String, Error>)
    ensures
        r matches Err(e) ==> e == Error::PathError,
        spec_is_absolute(path@) ==> match r {
            Ok(text) => spec_absolute(path@) == Some(text@),
            Err(_) => spec_absolute(path@) is None,
        },
{
    match absolute(path) {
        Ok(canonical) => Ok(canonical),
        Err(_) => Err(Error::PathError),
    }
}

/// What three probes of the disk say of a path: see `spec_on_disk`.
pub fn on_disk(resolved: Option<String>, exists: bool, parent: Option<String>) -> (found: OnDisk)
    ensures
        found == spec_on_disk(resolved, exists, parent),
{
    match resolved {
        Some(place) => OnDisk::Existing(place),
        None => if exists {
            OnDisk::Unresolved
        } else {
            match parent {
                Some(dir) => OnDisk::Missing(dir),
                None => OnDisk::Unresolved,
            }
        },
    }
}

/// The two ends of a rename, once each is resolved. A failure to resolve
/// either end comes before anything is asked of the source; that of the
/// source comes first.
pub fn rename_ends(from: Result<String, Error>, to: Result<String, Error>) -> (r: Result<
    (String, String),
    Error,
>)
    ensures
        r == spec_rename_ends(from, to),
{
    match from {
        Err(e) => Err(e),
        Ok(source) => match to {
            Err(e) => Err(e),
            Ok(target) => Ok((source, target)),
        },
    }
}

/// A backend on the local disk, confined to one directory: the root, an
/// absolute path that is fixed when the backend is made.
#[derive(Debug)]
pub struct Filesystem {
    root: String,
}

impl Clone for Filesystem {
    /// A second backend with the same root.
    fn clone(&self) -> (fs: Filesystem)
        ensures
            fs@ == self@,
    {
        proof {
            use_type_invariant(self);
        }
        Filesystem { root: self.root.clone() }
    }
}

impl View for Filesystem {
    type V = Seq<char>;

    /// The root: the directory beyond which no operation reads or writes.
    closed spec fn view(&self) -> Seq<char> {
        self.root@
    }
}

impl Filesystem {
    #[verifier::type_invariant]
    spec fn root_is_absolute(self) -> bool {
        spec_is_absolute(self.root@)
    }

    /// A backend with the given root, which is an absolute path.
    pub fn new(root: &str) -> (fs: Filesystem)
        requires
            spec_is_absolute(root@),
        ensures
            fs@ == root@,
    {
        Filesystem { root: root.to_owned() }
    }

    /// The root.
    pub fn root(&self) -> (root: &str)
        ensures
            root@ == self@,
            spec_is_absolute(root@),
    {
        proof {
            use_type_invariant(self);
        }
        self.root.as_str()
    }

    /// The request path joined to the root: leading separators of `path` are
    /// dropped, so that the path counts from the root whatever it begins
    /// with.
    pub fn rooted(&self, path: &str) -> (joined: String)
        ensures
            joined@ == spec_join(self@, spec_strip_root(path@)),
    {
        join(self.root.as_str(), strip_root(path))
    }

    /// Whether `path` is the root or a descendant of it, compared name by
    /// name.
    pub fn contains(&self, path: &str) -> (b: bool)
        ensures
            b == spec_is_below(path@, self@),
    {
        is_below(path, self.root.as_str())
    }

    /// The containment check: a canonical path that is the root or a
    /// descendant of it is handed back, any other is a `PathError`.
    pub fn contain(&self, canonical: String) -> (r: Result<String, Error>)
        ensures
            match r {
                Ok(path) => spec_contain(self@, canonical@) == Ok::<Seq<char>, Error>(path@),
                Err(e) => spec_contain(self@, canonical@) == Err::<Seq<char>, Error>(e),
            },
    {
        if is_below(canonical.as_str(), self.root.as_str()) {
            Ok(canonical)
        } else {
            Err(Error::PathError)
        }
    }

    /// Where a request path leads by its names alone, before any symbolic
    /// link is followed: the path is joined to the root, brought into absolute
    /// form and checked to be the root or a descendant of it. This is the path
    /// to probe the disk at; what `full_path` hands back is the place to work
    /// on.
    pub fn lexical_path(&self, path: &str) -> (r: Result<String, Error>)
        ensures
            match r {
                Ok(lexical) => spec_lexical_path(self@, path@) == Ok::<Seq<char>, Error>(lexical@),
                Err(e) => spec_lexical_path(self@, path@) == Err::<Seq<char>, Error>(e),
            },
            r matches Ok(lexical) ==> spec_is_below(lexical@, self@),
            r matches Err(e) ==> e == Error::PathError,
    {
        proof {
            use_type_invariant(self);
        }
        let joined = self.rooted(path);
        match canonicalize(joined.as_str()) {
            Ok(canonical) => self.contain(canonical),
            Err(e) => Err(e),
        }
    }

    /// The containment check once symbolic links are followed: `lexical` is
    /// what `lexical_path` gave, `found` what the disk holds there. The place is
    /// handed back where it is the root or a descendant of it; a link that
    /// leads out of the root, or nowhere, is a `PathError`.
    pub fn confirm(&self, lexical: &str, found: OnDisk) -> (r: Result<String, Error>)
        ensures
            match r {
                Ok(path) => spec_confirm(self@, lexical@, found) == Ok::<Seq<char>, Error>(path@),
                Err(e) => spec_confirm(self@, lexical@, found) == Err::<Seq<char>, Error>(e),
            },
    {
        match found {
            OnDisk::Existing(place) => self.contain(place),
            OnDisk::Missing(dir) => {
                let name = last_component(lexical);
                self.contain(join(dir.as_str(), name.as_str()))
            },
            OnDisk::Unresolved => Err(Error::PathError),
        }
    }

    /// The place on disk that a request path denotes, with every symbolic
    /// link followed: `found` is what the disk holds at `lexical_path(path)`.
    /// The place that is handed back is the root or a descendant of it. A
    /// request that leaves the root, by its own names or through a link, is a
    /// `PathError`, and so is one whose links lead nowhere.
    pub fn full_path(&self, path: &str, found: OnDisk) -> (r: Result<String, Error>)
        ensures
            match r {
                Ok(place) => spec_full_path(self@, path@, found) == Ok::<Seq<char>, Error>(place@),
                Err(e) => spec_full_path(self@, path@, found) == Err::<Seq<char>, Error>(e),
            },
            r matches Ok(place) ==> spec_is_below(place@, self@),
            r matches Err(e) ==> e == Error::PathError,
    {
        match self.lexical_path(path) {
            Ok(lexical) => self.confirm(lexical.as_str(), found),
            Err(e) => Err(e),
        }
    }

    /// One entry of a listing: `path` is the place of the entry on disk,
    /// `stat` what the platform said of it. An entry whose metadata could not
    /// be read is left out, and so is one that does not lie below the root;
    /// any other is shown under its path relative to the root.
    pub fn list_entry<M: Metadata>(&self, path: &str, stat: Result<M, std::io::Error>) -> (r:
        Option<Fileinfo<M>>)
        ensures
            match (stat, spec_strip_prefix(path@, self@)) {
                (Ok(metadata), Some(relative)) => r matches Some(info) && info.path@ == relative
                    && info.metadata == metadata,
                _ => r is None,
            },
            r matches Some(info) ==> !spec_is_absolute(info.path@),
    {
        proof {
            if spec_starts_with(path@, self@) {
                lemma_strip_prefix_components(path@, self@);
            }
        }
        match stat {
            Ok(metadata) => match strip_prefix(path, self.root.as_str()) {
                Some(relative) => Some(Fileinfo { path: relative, metadata }),
                None => None,
            },
            Err(_) => None,
        }
    }

    /// The entries among `found` that lie below the root and whose metadata
    /// could be read, in their order, each under its path relative to the
    /// root.
    fn entries<M: Metadata>(&self, found: Vec<(String, Result<M, std::io::Error>)>) -> (listed: Vec<
        Fileinfo<M>,
    >)
        ensures
            shown(listed@) == spec_list(self@, found@),
    {
        let mut listed: Vec<Fileinfo<M>> = Vec::new();
        let ghost all = found@;
        for item in it: found
            invariant
                it.seq() == all,
                shown(listed@) == spec_list(self@, all.take(it.index())),
        {
            assert(all.take(it.index() + 1).drop_last() =~= all.take(it.index()));
            let (path, stat) = item;
            match self.list_entry(path.as_str(), stat) {
                Some(info) => listed.push(info),
                None => {},
            }
        }
        assert(all.take(all.len() as int) =~= all);
        listed
    }

    /// The listing of the directory that the request `path` denotes: `held`
    /// is what the disk holds at `lexical_path(path)`, and each element of
    /// `found` is the place of an entry that the platform enumerated there,
    /// with what it said of the entry. A request that leads out of the root
    /// is refused and lists nothing. Of a directory inside, the entries whose
    /// metadata could not be read are left out, as is any that does not lie
    /// below the root; the rest keep their order.
    pub fn list<M: Metadata>(
        &self,
        path: &str,
        held: OnDisk,
        found: Vec<(String, Result<M, std::io::Error>)>,
    ) -> (r: Result<Vec<Fileinfo<M>>, Error>)
        ensures
            match r {
                Ok(listed) => spec_full_path(self@, path@, held) is Ok && shown(listed@)
                    == spec_list(self@, found@),
                Err(e) => spec_full_path(self@, path@, held) == Err::<Seq<char>, Error>(e),
            },
            r matches Err(e) ==> e == Error::PathError,
    {
        match self.full_path(path, held) {
            Ok(_) => Ok(self.entries(found)),
            Err(e) => Err(e),
        }
    }

    /// Whether a rename may go on, given what the platform said of its
    /// source: only a regular file is renamed, anything else is an `IOError`.
    pub fn check_rename<M: Metadata>(source: Result<M, std::io::Error>) -> (r: Result<(), Error>)
        ensures
            r == spec_check_rename(source),
    {
        match source {
            Ok(stat) => if stat.is_file() {
                Ok(())
            } else {
                Err(Error::IOError)
            },
            Err(_) => Err(Error::IOError),
        }
    }
}

/// A path that resolves outside the root is refused with a `PathError`.
pub proof fn lemma_outside_root_is_path_error(root: Seq<char>, canonical: Seq<char>)
    requires
        !spec_is_below(canonical, root),
    ensures
        spec_contain(root, canonical) == Err::<Seq<char>, Error>(Error::PathError),
{
}

/// A path that the containment check hands back lies at or below the root.
pub proof fn lemma_resolved_is_below_root(root: Seq<char>, canonical: Seq<char>, resolved: Seq<char>)
    requires
        spec_contain(root, canonical) == Ok::<Seq<char>, Error>(resolved),
    ensures
        resolved == canonical,
        spec_is_below(resolved, root),
{
}

/// A symbolic link that leads out of the root is refused with a `PathError`,
/// whatever the request looked like.
pub proof fn lemma_link_escape_is_path_error(root: Seq<char>, lexical: Seq<char>, place: String)
    requires
        !spec_is_below(place@, root),
    ensures
        spec_confirm(root, lexical, OnDisk::Existing(place)) == Err::<Seq<char>, Error>(
            Error::PathError,
        ),
{
}

/// Whatever a request is confirmed to denote is the root or a descendant of
/// it.
pub proof fn lemma_confirmed_is_below_root(
    root: Seq<char>,
    lexical: Seq<char>,
    found: OnDisk,
    resolved: Seq<char>,
)
    requires
        spec_confirm(root, lexical, found) == Ok::<Seq<char>, Error>(resolved),
    ensures
        spec_is_below(resolved, root),
{
}

/// A request is refused with nothing but a `PathError`, and what it is not
/// refused is the root or a descendant of it, whatever the disk holds: so it
/// is for every operation, which resolves its paths before anything else.
pub proof fn lemma_full_path_is_below_root_or_path_error(
    root: Seq<char>,
    path: Seq<char>,
    found: OnDisk,
)
    ensures
        match spec_full_path(root, path, found) {
            Ok(place) => spec_is_below(place, root),
            Err(e) => e == Error::PathError,
        },
{
}

/// A request that leaves the root through a symbolic link is refused: where
/// its names stay below the root but the place that they denote on disk,
/// with every link followed, is not below the root, the result is a
/// `PathError`.
pub proof fn lemma_full_path_refuses_a_link_out_of_the_root(
    root: Seq<char>,
    path: Seq<char>,
    place: String,
)
    requires
        !spec_is_below(place@, root),
    ensures
        spec_full_path(root, path, OnDisk::Existing(place)) == Err::<Seq<char>, Error>(
            Error::PathError,
        ),
{
}

/// Success is owed to a request without `..` for what exists below the root:
/// under an absolute root without `..`, where the disk holds a place that is
/// the root or a descendant of it, that place is handed back.
pub proof fn lemma_full_path_of_what_exists_below_the_root(
    root: Seq<char>,
    path: Seq<char>,
    place: String,
)
    requires
        spec_is_absolute(root),
        has_no_parent(spec_components(root)),
        has_no_parent(spec_components(path)),
        spec_is_below(place@, root),
    ensures
        spec_full_path(root, path, OnDisk::Existing(place)) == Ok::<Seq<char>, Error>(place@),
{
    lemma_lexical_path_without_parent(root, path);
}

/// A request that leads out of the root is refused whatever the disk holds
/// where it leads.
pub proof fn lemma_escape_is_refused_before_the_disk(
    root: Seq<char>,
    path: Seq<char>,
    found: OnDisk,
)
    requires
        spec_lexical_path(root, path) is Err,
    ensures
        spec_full_path(root, path, found) == Err::<Seq<char>, Error>(Error::PathError),
{
}

/// A request whose names lead to a place outside the root is refused with a
/// `PathError`.
pub proof fn lemma_escape_is_path_error(root: Seq<char>, path: Seq<char>, canonical: Seq<char>)
    requires
        spec_absolute(spec_join(root, spec_strip_root(path))) == Some(canonical),
        !spec_is_below(canonical, root),
    ensures
        spec_lexical_path(root, path) == Err::<Seq<char>, Error>(Error::PathError),
{
}

/// Where the names of a request lead is the root or a descendant of it.
pub proof fn lemma_lexical_path_is_below_root(root: Seq<char>, path: Seq<char>, resolved: Seq<char>)
    requires
        spec_lexical_path(root, path) == Ok::<Seq<char>, Error>(resolved),
    ensures
        spec_is_below(resolved, root),
{
}

/// The names of a request without `..` lead somewhere: under an absolute root
/// without `..`, to the names of the root followed by its own.
pub proof fn lemma_lexical_path_without_parent(root: Seq<char>, path: Seq<char>)
    requires
        spec_is_absolute(root),
        has_no_parent(spec_components(root)),
        has_no_parent(spec_components(path)),
    ensures
        spec_lexical_path(root, path) == Ok::<Seq<char>, Error>(
            seq![SEPARATOR] + spec_relative(spec_components(root) + spec_components(path)),
        ),
{
    let joined = spec_join(root, spec_strip_root(path));
    lemma_strip_root(path);
    lemma_join_components(root, spec_strip_root(path));
    let names = spec_components(root) + spec_components(path);
    assert forall|i: int| 0 <= i < names.len() implies !is_parent(#[trigger] names[i]) by {
        if i < spec_components(root).len() {
            assert(names[i] == spec_components(root)[i]);
        } else {
            assert(names[i] == spec_components(path)[i - spec_components(root).len()]);
        }
    }
    lemma_absolute_without_parent(joined);
}

} // verus!
