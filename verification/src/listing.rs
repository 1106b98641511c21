//! Directory listings as the bytes that go over the data connection: one line
//! for each entry, in the order of the entries, each ended by carriage return
//! and line feed.

use crate::fileinfo::Fileinfo;
use crate::metadata::Metadata;
use crate::path::{file_name, spec_file_name};
use vstd::prelude::*;
use vstd::string::*;
use vstd::utf8::encode_utf8;

verus! {

/// The lines one after the other, each followed by carriage return and line
/// feed. Nothing follows the end of the last line.
pub open spec fn spec_crlf_lines(lines: Seq<Seq<char>>) -> Seq<char>
    decreases lines.len(),
{
    if lines.len() == 0 {
        Seq::empty()
    } else {
        spec_crlf_lines(lines.drop_last()) + lines.last() + seq!['\r', '\n']
    }
}

/// The name of each entry: the last name of its path, and nothing where the
/// path has no name or ends in `..`.
pub open spec fn spec_names<M: Metadata>(entries: Seq<Fileinfo<M>>) -> Seq<Seq<char>> {
    Seq::new(entries.len(), |i: int| spec_file_name(entries[i].path@))
}

/// Whether each of `lines` is a line of a listing for the entry in the same
/// place of `entries`.
pub open spec fn are_lines<M: Metadata>(entries: Seq<Fileinfo<M>>, lines: Seq<Seq<char>>) -> bool {
    &&& lines.len() == entries.len()
    &&& forall|i: int| 0 <= i < entries.len() ==> #[trigger] entries[i].is_line(lines[i])
}

/// `line` and the end of a line, added to `text`.
fn push_line(text: &mut String, line: &str)
    ensures
        final(text)@ == old(text)@ + line@ + seq!['\r', '\n'],
{
    proof {
        reveal_strlit("\r\n");
    }
    text.append(line);
    text.append("\r\n");
}

/// The bytes of a listing that shows each entry on a line of its own: kind,
/// permissions, owner, group, size, time of last change and name. An empty
/// sequence of entries gives no bytes.
pub fn list_fmt<M: Metadata>(entries: &Vec<Fileinfo<M>>) -> (bytes: Vec<u8>)
    ensures
        exists|lines: Seq<Seq<char>>|
            are_lines(entries@, lines) && bytes@ == encode_utf8(#[trigger] spec_crlf_lines(lines)),
        entries.len() == 0 ==> bytes.len() == 0,
{
    let mut text = String::new();
    let ghost mut lines: Seq<Seq<char>> = Seq::empty();
    let mut i: usize = 0;
    while i < entries.len()
        invariant
            i <= entries.len(),
            lines.len() == i,
            forall|j: int| 0 <= j < i ==> #[trigger] entries@[j].is_line(lines[j]),
            text@ == spec_crlf_lines(lines),
        decreases entries.len() - i,
    {
        let line = entries[i].to_string();
        push_line(&mut text, line.as_str());
        proof {
            assert(lines.push(line@).drop_last() =~= lines);
            lines = lines.push(line@);
        }
        i += 1;
    }
    text.as_str().as_bytes_vec()
}

/// The bytes of a listing that shows the name of each entry on a line of its
/// own; an empty line for an entry whose path has no name or ends in `..`.
pub fn nlst<M: Metadata>(entries: &Vec<Fileinfo<M>>) -> (bytes: Vec<u8>)
    ensures
        bytes@ == encode_utf8(spec_crlf_lines(spec_names(entries@))),
        entries.len() == 0 ==> bytes.len() == 0,
{
    let mut text = String::new();
    let mut i: usize = 0;
    while i < entries.len()
        invariant
            i <= entries.len(),
            text@ == spec_crlf_lines(spec_names(entries@).take(i as int)),
        decreases entries.len() - i,
    {
        let name = file_name(entries[i].path.as_str());
        push_line(&mut text, name.as_str());
        assert(spec_names(entries@).take(i as int + 1).drop_last() =~= spec_names(entries@).take(
            i as int,
        ));
        i += 1;
    }
    assert(spec_names(entries@).take(entries.len() as int) =~= spec_names(entries@));
    text.as_str().as_bytes_vec()
}

/// A listing of entries that come in two parts is the listing of the first
/// part followed by that of the second: lines keep the order of the entries.
pub proof fn lemma_crlf_lines_append(first: Seq<Seq<char>>, second: Seq<Seq<char>>)
    ensures
        spec_crlf_lines(first + second) == spec_crlf_lines(first) + spec_crlf_lines(second),
    decreases second.len(),
{
    if second.len() > 0 {
        lemma_crlf_lines_append(first, second.drop_last());
        assert((first + second).drop_last() =~= first + second.drop_last());
    }
}

/// A listing that is not empty ends with carriage return and line feed.
pub proof fn lemma_crlf_lines_end(lines: Seq<Seq<char>>)
    requires
        lines.len() > 0,
    ensures
        spec_crlf_lines(lines).len() >= 2,
        spec_crlf_lines(lines)[spec_crlf_lines(lines).len() - 2] == '\r',
        spec_crlf_lines(lines).last() == '\n',
{
}

} // verus!
