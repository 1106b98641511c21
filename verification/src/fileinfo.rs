//! One entry of a directory listing, and the line that shows it.

use crate::metadata::{spec_in_range, FileStat, Metadata, Timestamp};
use crate::path::{last_component, spec_last_component};
use crate::text::{decimal, right_justify, spec_decimal, spec_right_justify};
use vstd::prelude::*;
use vstd::string::*;

verus! {

/// Width of the fields that hold the owner and the group.
pub const OWNER_WIDTH: usize = 12;

/// Width of the field that holds the size.
pub const SIZE_WIDTH: usize = 14;

/// The permissions that every line shows. Permissions are not modelled.
pub open spec fn permissions() -> Seq<char> {
    seq!['r', 'w', 'x', 'r', '-', 'x', 'r', '-', 'x']
}

/// Whether `c` is a decimal digit.
pub open spec fn is_digit(c: char) -> bool {
    '0' <= c && c <= '9'
}

/// Whether `text` has the shape `Mon DD HH:MM`: a month in three letters, the
/// day of the month, the hour and the minute, each in two digits.
pub open spec fn is_listing_time(text: Seq<char>) -> bool {
    &&& text.len() == 12
    &&& 'A' <= text[0] && text[0] <= 'Z'
    &&& 'a' <= text[1] && text[1] <= 'z'
    &&& 'a' <= text[2] && text[2] <= 'z'
    &&& text[3] == ' '
    &&& is_digit(text[4]) && is_digit(text[5])
    &&& text[6] == ' '
    &&& is_digit(text[7]) && is_digit(text[8])
    &&& text[9] == ':'
    &&& is_digit(text[10]) && is_digit(text[11])
}

/// The line of a listing, without its end: the kind (`d` for a directory, `-`
/// for anything else), the permissions, the owner and the group each to the
/// right of 12 columns, the size to the right of 14 columns, the time and the
/// name, with one space between neighbours.
pub open spec fn spec_listing_line(
    is_dir: bool,
    owner: u32,
    group: u32,
    size: u64,
    time: Seq<char>,
    name: Seq<char>,
) -> Seq<char> {
    seq![if is_dir { 'd' } else { '-' }] + permissions() + seq![' '] + spec_right_justify(
        spec_decimal(owner as nat),
        OWNER_WIDTH as nat,
    ) + seq![' '] + spec_right_justify(spec_decimal(group as nat), OWNER_WIDTH as nat) + seq![' ']
        + spec_right_justify(spec_decimal(size as nat), SIZE_WIDTH as nat) + seq![' '] + time
        + seq![' '] + name
}

/// The line of a listing for an entry of the given kind, owner, group and
/// size, with `time` as the text of its last change and `name` as its name.
pub fn listing_line(is_dir: bool, owner: u32, group: u32, size: u64, time: &str, name: &str) -> (line:
    String)
    ensures
        line@ == spec_listing_line(is_dir, owner, group, size, time@, name@),
{
    proof {
        reveal_strlit("d");
        reveal_strlit("-");
        reveal_strlit("rwxr-xr-x");
        reveal_strlit(" ");
    }
    let mut line = if is_dir {
        "d".to_owned()
    } else {
        "-".to_owned()
    };
    line.append("rwxr-xr-x");
    line.append(" ");
    let owner_text = decimal(owner as u64);
    let owner_field = right_justify(owner_text.as_str(), OWNER_WIDTH);
    line.append(owner_field.as_str());
    line.append(" ");
    let group_text = decimal(group as u64);
    let group_field = right_justify(group_text.as_str(), OWNER_WIDTH);
    line.append(group_field.as_str());
    line.append(" ");
    let size_text = decimal(size);
    let size_field = right_justify(size_text.as_str(), SIZE_WIDTH);
    line.append(size_field.as_str());
    line.append(" ");
    line.append(time);
    line.append(" ");
    line.append(name);
    line
}

/// Whether a clock may be `east` seconds ahead of UTC: by less than a day,
/// either way.
pub open spec fn is_offset(east: i32) -> bool {
    -86_400 < east < 86_400
}

/// The text `Mon DD HH:MM` that a clock `east` seconds ahead of UTC shows at
/// the time `seconds` and `nanos` after the Unix epoch, as chrono writes it.
pub uninterp spec fn clock_text(seconds: i64, nanos: u32, east: i32) -> Seq<char>;

/// How far the clock of this machine is ahead of UTC at the time `seconds` and
/// `nanos` after the Unix epoch, in seconds, and what it shows then, as
/// `Mon DD HH:MM`.
///
/// Trusted: calls `chrono::DateTime::from_timestamp`, moves the result to
/// `chrono::Local` and hands back the offset of that time with its text under
/// the format `%b %d %H:%M`. The times that `spec_in_range` admits are those
/// from `DateTime::<Utc>::MIN_UTC` to `DateTime::<Utc>::MAX_UTC`, for which
/// chrono has a date. Which offset it finds depends on the machine; the text depends
/// on the time and the offset alone. Chrono writes the month as one of its
/// twelve English abbreviations and each number in two digits.
#[verifier::external_body]
fn local_time_text(seconds: i64, nanos: u32) -> (shown: (i32, String))
    requires
        spec_in_range(seconds, nanos),
    ensures
        is_offset(shown.0),
        shown.1@ == clock_text(seconds, nanos, shown.0),
        is_listing_time(shown.1@),
{
    let local = chrono::DateTime::from_timestamp(seconds, nanos).unwrap().with_timezone(
        &chrono::Local,
    );
    (local.offset().local_minus_utc(), local.format("%b %d %H:%M").to_string())
}

/// A path below the root of a backend, with the metadata of what it names.
pub struct Fileinfo<M: Metadata> {
    /// The path, relative to the root.
    pub path: String,
    /// The metadata of the entry.
    pub metadata: M,
}

impl<M: Metadata> Fileinfo<M> {
    /// The line of a listing for this entry, were `time` the text of its last
    /// change. The name that it shows is the last component of the path.
    pub open spec fn spec_line(self, time: Seq<char>) -> Seq<char> {
        let stat = self.metadata.view();
        spec_listing_line(
            stat.is_dir,
            stat.uid,
            stat.gid,
            stat.len,
            time,
            spec_last_component(self.path@),
        )
    }

    /// The time that a listing shows for this entry: that of the last change,
    /// or the Unix epoch where the metadata has none.
    pub open spec fn spec_shown_time(self) -> Timestamp {
        match self.metadata.view().modified {
            Ok(modified) => modified,
            Err(_) => Timestamp::spec_epoch(),
        }
    }

    /// The time that a listing shows for this entry: that of the last change,
    /// or the Unix epoch where the metadata has none.
    pub fn shown_time(&self) -> (time: Timestamp)
        ensures
            time == self.spec_shown_time(),
    {
        match self.metadata.modified() {
            Ok(modified) => modified,
            Err(_) => Timestamp::epoch(),
        }
    }

    /// The line of a listing for this entry on a machine whose clock is `east`
    /// seconds ahead of UTC at the time that the line shows.
    pub open spec fn spec_line_at(self, east: i32) -> Seq<char> {
        let shown = self.spec_shown_time();
        self.spec_line(clock_text(shown.spec_seconds(), shown.spec_nanos(), east))
    }

    /// Whether `line` is a line of a listing for this entry: it shows the
    /// time of `spec_shown_time` on a clock that is ahead of UTC by some offset,
    /// in the shape `Mon DD HH:MM`.
    pub open spec fn is_line(self, line: Seq<char>) -> bool {
        exists|east: i32|
            {
                let shown = self.spec_shown_time();
                &&& is_offset(east)
                &&& is_listing_time(clock_text(shown.spec_seconds(), shown.spec_nanos(), east))
                &&& line == #[trigger] self.spec_line_at(east)
            }
    }

    /// The line of a listing for this entry, without its end. The time is
    /// that of `shown_time`, on the clock of this machine.
    pub fn to_string(&self) -> (line: String)
        ensures
            self.is_line(line@),
    {
        let shown = self.shown_time();
        let (east, time) = local_time_text(shown.seconds(), shown.nanos());
        let name = last_component(self.path.as_str());
        let line = listing_line(
            self.metadata.is_dir(),
            self.metadata.uid(),
            self.metadata.gid(),
            self.metadata.len(),
            time.as_str(),
            name.as_str(),
        );
        assert(line@ == self.spec_line_at(east));
        line
    }
}

} // verus!
