//! Request paths as text: their names, and the prefix relation that confinement
//! to a root rests on.
//!
//! A path is a string in which `/` separates names, as on Unix. Runs of
//! separators count as one, and a segment that is empty or `.` names nothing.
//! Two paths are compared name by name, never letter by letter: `/srv/ftpx`
//! does not start with `/srv/ftp`.

use vstd::prelude::*;
use vstd::string::*;

verus! {

/// The character that separates the names of a path.
pub const SEPARATOR: char = '/';

/// Whether a segment between two separators is a name. The empty segment and
/// `.` are not.
pub open spec fn is_name(segment: Seq<char>) -> bool {
    segment.len() > 0 && segment != seq!['.']
}

/// `names` with `segment` added at the end, if it is a name.
pub open spec fn close(names: Seq<Seq<char>>, segment: Seq<char>) -> Seq<Seq<char>> {
    if is_name(segment) {
        names.push(segment)
    } else {
        names
    }
}

/// Reads `p` from left to right: the names that a separator has ended, and the
/// segment after the last separator.
pub open spec fn scan(p: Seq<char>) -> (Seq<Seq<char>>, Seq<char>)
    decreases p.len(),
{
    if p.len() == 0 {
        (Seq::empty(), Seq::empty())
    } else {
        let (names, segment) = scan(p.drop_last());
        if p.last() == SEPARATOR {
            (close(names, segment), Seq::empty())
        } else {
            (names, segment.push(p.last()))
        }
    }
}

/// The names of `p`, from left to right.
pub open spec fn spec_components(p: Seq<char>) -> Seq<Seq<char>> {
    close(scan(p).0, scan(p).1)
}

/// Whether `p` begins at the root of the tree: with a separator.
pub open spec fn spec_is_absolute(p: Seq<char>) -> bool {
    p.len() > 0 && p[0] == SEPARATOR
}

/// Whether `p` lies at or below `base`: both begin at the root or neither does,
/// and the names of `base` are the first names of `p`.
pub open spec fn spec_starts_with(p: Seq<char>, base: Seq<char>) -> bool {
    &&& spec_is_absolute(p) == spec_is_absolute(base)
    &&& spec_components(base).is_prefix_of(spec_components(p))
}

/// Whether `name` is `..`, which stands for the directory above.
pub open spec fn is_parent(name: Seq<char>) -> bool {
    name == seq!['.', '.']
}

/// The name of the file or directory that `p` denotes: its last name, and
/// nothing where `p` has no name or ends in `..`.
pub open spec fn spec_file_name(p: Seq<char>) -> Seq<char> {
    let names = spec_components(p);
    if names.len() == 0 || is_parent(names.last()) {
        Seq::empty()
    } else {
        names.last()
    }
}

/// The last component of `p`: its last name, be it `..`. A path without a
/// name ends where it begins: at the root, written `/`, or in the directory
/// it is read from, written `.`. The empty path has no component.
pub open spec fn spec_last_component(p: Seq<char>) -> Seq<char> {
    let names = spec_components(p);
    if names.len() > 0 {
        names.last()
    } else if p.len() == 0 {
        Seq::empty()
    } else if spec_is_absolute(p) {
        seq![SEPARATOR]
    } else {
        seq!['.']
    }
}

/// `p` without its leading separators.
pub open spec fn spec_strip_root(p: Seq<char>) -> Seq<char>
    decreases p.len(),
{
    if p.len() > 0 && p[0] == SEPARATOR {
        spec_strip_root(p.skip(1))
    } else {
        p
    }
}

/// `rel` appended to `base`, with one separator between them unless `base` is
/// empty or ends with one.
pub open spec fn spec_join(base: Seq<char>, rel: Seq<char>) -> Seq<char> {
    if base.len() > 0 && base.last() != SEPARATOR {
        base + seq![SEPARATOR] + rel
    } else {
        base + rel
    }
}

/// The names written out as a relative path, one separator between neighbours.
pub open spec fn spec_relative(names: Seq<Seq<char>>) -> Seq<char>
    decreases names.len(),
{
    if names.len() == 0 {
        Seq::empty()
    } else if names.len() == 1 {
        names[0]
    } else {
        spec_relative(names.drop_last()) + seq![SEPARATOR] + names.last()
    }
}

/// What is left of `p` below `base`, as a relative path; `None` where `p` does
/// not start with `base`.
pub open spec fn spec_strip_prefix(p: Seq<char>, base: Seq<char>) -> Option<Seq<char>> {
    if spec_starts_with(p, base) {
        Some(spec_relative(spec_components(p).skip(spec_components(base).len() as int)))
    } else {
        None
    }
}

/// Whether none of `names` is `..`.
pub open spec fn has_no_parent(names: Seq<Seq<char>>) -> bool {
    forall|i: int| 0 <= i < names.len() ==> !is_parent(#[trigger] names[i])
}

/// Whether `name` can stand between two separators and be read back: it is a
/// name and holds no separator.
pub open spec fn is_plain_name(name: Seq<char>) -> bool {
    is_name(name) && !name.contains(SEPARATOR)
}

/// Walks down from the root along `names`: a name leads one directory down,
/// `..` leads back up by one. Gives the names of the directory reached, or
/// `None` where `..` would lead above the root.
pub open spec fn spec_resolve(names: Seq<Seq<char>>) -> Option<Seq<Seq<char>>>
    decreases names.len(),
{
    if names.len() == 0 {
        Some(Seq::empty())
    } else {
        match spec_resolve(names.drop_last()) {
            None => None,
            Some(reached) => if is_parent(names.last()) {
                if reached.len() == 0 {
                    None
                } else {
                    Some(reached.drop_last())
                }
            } else {
                Some(reached.push(names.last()))
            },
        }
    }
}

/// The absolute form of a path that begins at the root: a separator, then
/// the names that are left once every `..` is resolved, one separator between
/// neighbours. `None` where `..` would lead above the root.
pub open spec fn spec_absolute(p: Seq<char>) -> Option<Seq<char>> {
    match spec_resolve(spec_components(p)) {
        Some(reached) => Some(seq![SEPARATOR] + spec_relative(reached)),
        None => None,
    }
}

/// Whether `p` is `base` or a descendant of it: it starts with `base`, and
/// none of its names is `..`, so that no name leads back up.
pub open spec fn spec_is_below(p: Seq<char>, base: Seq<char>) -> bool {
    spec_starts_with(p, base) && has_no_parent(spec_components(p))
}

/// The path of the directory that holds `p`: `p` without its last name, and
/// without the separators that repeat or end it.
pub open spec fn spec_parent(p: Seq<char>) -> Seq<char> {
    let names = spec_components(p);
    let upper = if names.len() == 0 {
        names
    } else {
        names.drop_last()
    };
    if spec_is_absolute(p) {
        seq![SEPARATOR] + spec_relative(upper)
    } else {
        spec_relative(upper)
    }
}

/// The text of each string.
pub open spec fn texts(names: Seq<String>) -> Seq<Seq<char>> {
    names.map_values(|s: String| s@)
}

/// The characters of `s`, in order.
pub fn chars_of(s: &str) -> (v: Vec<char>)
    ensures
        v@ == s@,
{
    let mut v: Vec<char> = Vec::new();
    for c in it: s.chars()
        invariant
            it.seq() == s@,
            v@ == s@.take(it.index()),
    {
        v.push(c);
    }
    v
}

/// Whether `p` begins with a separator.
pub fn is_absolute(p: &str) -> (b: bool)
    ensures
        b == spec_is_absolute(p@),
{
    broadcast use vstd::string::group_string_axioms;

    let mut chars = p.chars();
    match chars.next() {
        Some(first) => first == SEPARATOR,
        None => false,
    }
}

/// Whether the characters of `chars` from `start` up to `end` form a name.
fn segment_is_name(chars: &Vec<char>, start: usize, end: usize) -> (b: bool)
    requires
        start <= end <= chars.len(),
    ensures
        b == is_name(chars@.subrange(start as int, end as int)),
{
    let ghost segment = chars@.subrange(start as int, end as int);
    if end == start {
        false
    } else if end - start == 1 && chars[start] == '.' {
        assert(segment =~= seq!['.']);
        false
    } else {
        assert(segment != seq!['.']) by {
            if segment == seq!['.'] {
                assert(segment.len() == 1);
                assert(segment[0] == '.');
            }
        }
        true
    }
}

/// The names of `p`, from left to right.
pub fn components(p: &str) -> (names: Vec<String>)
    ensures
        texts(names@) == spec_components(p@),
{
    let chars = chars_of(p);
    let n = chars.len();
    let mut names: Vec<String> = Vec::new();
    let mut start: usize = 0;
    let mut i: usize = 0;
    while i < n
        invariant
            chars@ == p@,
            n == chars.len(),
            start <= i <= n,
            texts(names@) == scan(p@.take(i as int)).0,
            p@.subrange(start as int, i as int) == scan(p@.take(i as int)).1,
        decreases n - i,
    {
        assert(p@.take(i as int + 1).drop_last() =~= p@.take(i as int));
        if chars[i] == SEPARATOR {
            if segment_is_name(&chars, start, i) {
                names.push(p.substring_char(start, i).to_owned());
            }
            start = i + 1;
        }
        i += 1;
    }
    assert(p@.take(n as int) =~= p@);
    if segment_is_name(&chars, start, n) {
        names.push(p.substring_char(start, n).to_owned());
    }
    names
}

/// Whether the strings of `prefix` are the first strings of `names`.
fn names_start_with(names: &Vec<String>, prefix: &Vec<String>) -> (b: bool)
    ensures
        b == texts(prefix@).is_prefix_of(texts(names@)),
{
    if prefix.len() > names.len() {
        return false;
    }
    let mut i: usize = 0;
    while i < prefix.len()
        invariant
            i <= prefix.len() <= names.len(),
            forall|j: int| 0 <= j < i ==> texts(prefix@)[j] == texts(names@)[j],
        decreases prefix.len() - i,
    {
        if !(prefix[i] == names[i]) {
            assert(texts(prefix@)[i as int] != texts(names@).subrange(
                0,
                prefix.len() as int,
            )[i as int]);
            return false;
        }
        i += 1;
    }
    true
}

/// Whether `p` lies at or below `base`, compared name by name.
pub fn starts_with(p: &str, base: &str) -> (b: bool)
    ensures
        b == spec_starts_with(p@, base@),
{
    if is_absolute(p) != is_absolute(base) {
        return false;
    }
    let names = components(p);
    let prefix = components(base);
    names_start_with(&names, &prefix)
}

/// The name of the file or directory that `p` denotes; empty where `p` has
/// no name or ends in `..`.
pub fn file_name(p: &str) -> (name: String)
    ensures
        name@ == spec_file_name(p@),
{
    let mut names = components(p);
    match names.pop() {
        Some(last) => if is_parent_name(last.as_str()) {
            String::new()
        } else {
            last
        },
        None => String::new(),
    }
}

/// The last component of `p`: its last name, or `/` or `.` where a path that
/// is not empty has no name.
pub fn last_component(p: &str) -> (name: String)
    ensures
        name@ == spec_last_component(p@),
{
    proof {
        reveal_strlit("/");
        reveal_strlit(".");
    }
    let mut names = components(p);
    match names.pop() {
        Some(last) => last,
        None => if p.is_empty() {
            String::new()
        } else if is_absolute(p) {
            "/".to_owned()
        } else {
            ".".to_owned()
        },
    }
}

/// `p` without its leading separators.
pub fn strip_root<'a>(p: &'a str) -> (rest: &'a str)
    ensures
        rest@ == spec_strip_root(p@),
{
    let chars = chars_of(p);
    let n = chars.len();
    let mut k: usize = 0;
    assert(p@.skip(0) =~= p@);
    while k < n && chars[k] == SEPARATOR
        invariant
            chars@ == p@,
            n == chars.len(),
            k <= n,
            spec_strip_root(p@) == spec_strip_root(p@.skip(k as int)),
        decreases n - k,
    {
        assert(p@.skip(k as int).skip(1) =~= p@.skip(k as int + 1));
        k += 1;
    }
    p.substring_char(k, n)
}

/// `rel` appended to `base`, with one separator between them unless `base` is
/// empty or ends with one.
pub fn join(base: &str, rel: &str) -> (joined: String)
    ensures
        joined@ == spec_join(base@, rel@),
{
    let chars = chars_of(base);
    let mut joined = base.to_owned();
    if chars.len() > 0 && chars[chars.len() - 1] != SEPARATOR {
        proof {
            reveal_strlit("/");
        }
        joined.append("/");
    }
    joined.append(rel);
    joined
}

/// The strings of `names` from index `from` on, written out as a relative path.
fn relative(names: &Vec<String>, from: usize) -> (path: String)
    requires
        from <= names.len(),
    ensures
        path@ == spec_relative(texts(names@).skip(from as int)),
{
    let ghost all = texts(names@);
    let mut path = String::new();
    let mut i: usize = from;
    while i < names.len()
        invariant
            from <= i <= names.len(),
            all == texts(names@),
            path@ == spec_relative(all.subrange(from as int, i as int)),
        decreases names.len() - i,
    {
        assert(all.subrange(from as int, i as int + 1).drop_last() =~= all.subrange(
            from as int,
            i as int,
        ));
        if i > from {
            proof {
                reveal_strlit("/");
            }
            path.append("/");
        }
        path.append(names[i].as_str());
        i += 1;
    }
    path
}

/// What is left of `p` below `base`, as a relative path; `None` where `p` does
/// not start with `base`.
pub fn strip_prefix(p: &str, base: &str) -> (rest: Option<String>)
    ensures
        match rest {
            Some(text) => spec_strip_prefix(p@, base@) == Some(text@),
            None => spec_strip_prefix(p@, base@) is None,
        },
{
    if is_absolute(p) != is_absolute(base) {
        return None;
    }
    let names = components(p);
    let prefix = components(base);
    if names_start_with(&names, &prefix) {
        Some(relative(&names, prefix.len()))
    } else {
        None
    }
}

/// Whether `name` is `..`.
pub fn is_parent_name(name: &str) -> (b: bool)
    ensures
        b == is_parent(name@),
{
    let chars = chars_of(name);
    if chars.len() == 2 && chars[0] == '.' && chars[1] == '.' {
        assert(name@ =~= seq!['.', '.']);
        true
    } else {
        false
    }
}

/// Whether none of `names` is `..`.
fn names_have_no_parent(names: &Vec<String>) -> (b: bool)
    ensures
        b == has_no_parent(texts(names@)),
{
    let mut i: usize = 0;
    while i < names.len()
        invariant
            i <= names.len(),
            forall|j: int| 0 <= j < i ==> !is_parent(#[trigger] texts(names@)[j]),
        decreases names.len() - i,
    {
        if is_parent_name(names[i].as_str()) {
            assert(is_parent(texts(names@)[i as int]));
            return false;
        }
        i += 1;
    }
    true
}

/// Whether `p` is `base` or a descendant of it, compared name by name.
pub fn is_below(p: &str, base: &str) -> (b: bool)
    ensures
        b == spec_is_below(p@, base@),
{
    if is_absolute(p) != is_absolute(base) {
        return false;
    }
    let names = components(p);
    let prefix = components(base);
    names_start_with(&names, &prefix) && names_have_no_parent(&names)
}

/// The path of the directory that holds `p`.
pub fn parent(p: &str) -> (dir: String)
    ensures
        dir@ == spec_parent(p@),
{
    let mut names = components(p);
    let ghost all = texts(names@);
    if names.len() > 0 {
        names.pop();
        assert(texts(names@) =~= all.drop_last());
    }
    assert(texts(names@).skip(0) =~= texts(names@));
    let upper = relative(&names, 0);
    if is_absolute(p) {
        proof {
            reveal_strlit("/");
        }
        let mut dir = "/".to_owned();
        dir.append(upper.as_str());
        dir
    } else {
        upper
    }
}

/// Reading goes on afresh after a separator: where `head` is empty or ends with
/// a separator, the names of `head + tail` are those of `head`, then those of
/// `tail`.
pub proof fn lemma_scan_after_separator(head: Seq<char>, tail: Seq<char>)
    requires
        scan(head).1.len() == 0,
    ensures
        scan(head + tail) == (scan(head).0 + scan(tail).0, scan(tail).1),
        spec_components(head + tail) == spec_components(head) + spec_components(tail),
    decreases tail.len(),
{
    if tail.len() > 0 {
        lemma_scan_after_separator(head, tail.drop_last());
        assert((head + tail).drop_last() =~= head + tail.drop_last());
    }
}

/// Joining adds names and takes none away: the names of the joined path are
/// those of `base`, then those of `rel`.
pub proof fn lemma_join_components(base: Seq<char>, rel: Seq<char>)
    ensures
        spec_components(spec_join(base, rel)) == spec_components(base) + spec_components(rel),
{
    if base.len() > 0 && base.last() != SEPARATOR {
        let head = base + seq![SEPARATOR];
        assert(head.drop_last() =~= base);
        lemma_scan_after_separator(head, rel);
    } else {
        lemma_scan_after_separator(base, rel);
    }
}

/// A path joined to a base that is not empty lies at or below that base.
pub proof fn lemma_join_starts_with(base: Seq<char>, rel: Seq<char>)
    requires
        base.len() > 0,
    ensures
        spec_starts_with(spec_join(base, rel), base),
{
    lemma_join_components(base, rel);
}

/// Leading separators name nothing: without them a path has the same names,
/// and no longer begins at the root.
pub proof fn lemma_strip_root(p: Seq<char>)
    ensures
        spec_components(spec_strip_root(p)) == spec_components(p),
        !spec_is_absolute(spec_strip_root(p)),
    decreases p.len(),
{
    if p.len() > 0 && p[0] == SEPARATOR {
        lemma_strip_root(p.skip(1));
        let head = seq![SEPARATOR];
        assert(scan(head.drop_last()) == (Seq::<Seq<char>>::empty(), Seq::<char>::empty()));
        assert(head + p.skip(1) =~= p);
        lemma_scan_after_separator(head, p.skip(1));
    }
}

/// Every path starts with itself.
pub proof fn lemma_starts_with_reflexive(p: Seq<char>)
    ensures
        spec_starts_with(p, p),
{
}

/// What lies below a path that lies below `base` lies below `base`.
pub proof fn lemma_starts_with_transitive(p: Seq<char>, mid: Seq<char>, base: Seq<char>)
    requires
        spec_starts_with(p, mid),
        spec_starts_with(mid, base),
    ensures
        spec_starts_with(p, base),
{
    let a = spec_components(base);
    let b = spec_components(mid);
    let c = spec_components(p);
    assert forall|i: int| 0 <= i < a.len() implies a[i] == c[i] by {
        assert(a[i] == b[i]);
    }
}

/// Text without a separator is one segment.
pub proof fn lemma_scan_segment(text: Seq<char>)
    requires
        !text.contains(SEPARATOR),
    ensures
        scan(text) == (Seq::<Seq<char>>::empty(), text),
    decreases text.len(),
{
    if text.len() > 0 {
        let head = text.drop_last();
        assert forall|i: int| 0 <= i < head.len() implies head[i] != SEPARATOR by {
            assert(text.contains(text[i]));
        }
        lemma_scan_segment(head);
    }
}

/// What `scan` has read is well formed: each name is plain, and the open
/// segment holds no separator.
pub proof fn lemma_scan_plain(p: Seq<char>)
    ensures
        forall|i: int| 0 <= i < scan(p).0.len() ==> is_plain_name(#[trigger] scan(p).0[i]),
        !scan(p).1.contains(SEPARATOR),
    decreases p.len(),
{
    if p.len() > 0 {
        lemma_scan_plain(p.drop_last());
        let (names, segment) = scan(p.drop_last());
        if p.last() != SEPARATOR {
            let longer = segment.push(p.last());
            assert forall|i: int| 0 <= i < longer.len() implies longer[i] != SEPARATOR by {
                if i < segment.len() {
                    assert(segment.contains(segment[i]));
                }
            }
        }
    }
}

/// Every name of a path is plain: not empty, not `.`, and without separator.
pub proof fn lemma_components_plain(p: Seq<char>)
    ensures
        forall|i: int|
            0 <= i < spec_components(p).len() ==> is_plain_name(#[trigger] spec_components(p)[i]),
{
    lemma_scan_plain(p);
}

/// Plain names written out as a path are read back as they were, with or
/// without a separator in front.
pub proof fn lemma_relative_components(names: Seq<Seq<char>>)
    requires
        forall|i: int| 0 <= i < names.len() ==> is_plain_name(#[trigger] names[i]),
    ensures
        spec_components(spec_relative(names)) == names,
        spec_components(seq![SEPARATOR] + spec_relative(names)) == names,
    decreases names.len(),
{
    let root = seq![SEPARATOR];
    assert(scan(root.drop_last()) == (Seq::<Seq<char>>::empty(), Seq::<char>::empty()));
    if names.len() > 0 {
        lemma_scan_segment(names.last());
        if names.len() > 1 {
            let init = names.drop_last();
            lemma_relative_components(init);
            let head = spec_relative(init) + seq![SEPARATOR];
            assert(head.drop_last() =~= spec_relative(init));
            lemma_scan_after_separator(head, names.last());
        }
    }
    lemma_scan_after_separator(root, spec_relative(names));
}

/// Where no name is `..`, the walk from the root follows every name.
pub proof fn lemma_resolve_without_parent(names: Seq<Seq<char>>)
    requires
        has_no_parent(names),
    ensures
        spec_resolve(names) == Some(names),
    decreases names.len(),
{
    if names.len() > 0 {
        let init = names.drop_last();
        assert forall|i: int| 0 <= i < init.len() implies !is_parent(#[trigger] init[i]) by {
            assert(init[i] == names[i]);
        }
        lemma_resolve_without_parent(init);
    }
}

/// A path without `..` has an absolute form, and that form has the names of
/// the path.
pub proof fn lemma_absolute_without_parent(p: Seq<char>)
    requires
        has_no_parent(spec_components(p)),
    ensures
        spec_absolute(p) == Some(seq![SEPARATOR] + spec_relative(spec_components(p))),
        spec_components(seq![SEPARATOR] + spec_relative(spec_components(p))) == spec_components(p),
{
    lemma_resolve_without_parent(spec_components(p));
    lemma_components_plain(p);
    lemma_relative_components(spec_components(p));
}

/// Plain names written out as a path are not empty, unless there are none.
pub proof fn lemma_relative_len(names: Seq<Seq<char>>)
    requires
        names.len() > 0,
        forall|i: int| 0 <= i < names.len() ==> is_plain_name(#[trigger] names[i]),
    ensures
        spec_relative(names).len() > 0,
{
}

/// Plain names written out as a path do not begin with a separator.
pub proof fn lemma_relative_first(names: Seq<Seq<char>>)
    requires
        forall|i: int| 0 <= i < names.len() ==> is_plain_name(#[trigger] names[i]),
    ensures
        !spec_is_absolute(spec_relative(names)),
    decreases names.len(),
{
    if names.len() > 1 {
        let init = names.drop_last();
        assert forall|i: int| 0 <= i < init.len() implies is_plain_name(#[trigger] init[i]) by {
            assert(init[i] == names[i]);
        }
        lemma_relative_first(init);
        lemma_relative_len(init);
    }
}

/// What is left of a path below a base is relative and has the names of the
/// path that follow those of the base.
pub proof fn lemma_strip_prefix_components(p: Seq<char>, base: Seq<char>)
    requires
        spec_starts_with(p, base),
    ensures
        spec_strip_prefix(p, base) matches Some(rest) && !spec_is_absolute(rest)
            && spec_components(rest) == spec_components(p).skip(spec_components(base).len() as int),
{
    let names = spec_components(p);
    let below = names.skip(spec_components(base).len() as int);
    lemma_components_plain(p);
    assert forall|i: int| 0 <= i < below.len() implies is_plain_name(#[trigger] below[i]) by {
        assert(below[i] == names[i + spec_components(base).len()]);
    }
    lemma_relative_components(below);
    lemma_relative_first(below);
}

} // verus!
