//! A diary entry and the text it is shown as.
use crate::clock::{local_offset_at, zone_offset};
use chrono::{FixedOffset, MappedLocalTime, TimeZone};
use vstd::prelude::*;

verus! {

/// One diary entry. Times are UNIX seconds (UTC).
#[derive(Debug)]
pub struct Entry {
    pub id: i64,
    pub content: String,
    pub created_at: i64,
    pub updated_at: Option<i64>,
    pub pinned: bool,
}

/// The earliest UNIX second `chrono::DateTime<Utc>` can hold (January 1 of the proleptic year -262143).
pub open spec fn min_timestamp() -> int {
    -8334601228800
}

/// The latest UNIX second `chrono::DateTime<Utc>` can hold (December 31 of the year 262142, 23:59:59).
pub open spec fn max_timestamp() -> int {
    8210266876799
}

/// A second that `chrono::DateTime<Utc>` can hold.
pub open spec fn timestamp_in_range(secs: i64) -> bool {
    min_timestamp() <= secs <= max_timestamp()
}

/// A distance from UTC that `chrono::FixedOffset` can hold: under one day either way.
pub open spec fn offset_in_range(secs: i32) -> bool {
    -86400 < secs < 86400
}

/// How times of entries are written: weekday, month, day, year, 12-hour
/// clock time, e.g. `Monday, January 1, 2024 2:30 PM`.
pub open spec fn time_format() -> Seq<char> {
    "%A, %B %-d, %Y %-I:%M %p"@
}

/// The text chrono makes of the UTC second `utc_secs`, seen at `offset_secs`
/// east of UTC, with the strftime format `fmt`.
pub uninterp spec fn chrono_format(utc_secs: i64, offset_secs: i32, fmt: Seq<char>) -> Seq<char>;

/// Formats a time with chrono: `FixedOffset::east_opt(offset_secs)`, then
/// `timestamp_opt(utc_secs, 0)` in that offset, then `format(fmt)` and
/// `to_string`. Claimed: a text comes back exactly when chrono can hold the
/// second and the offset (the bounds are those of `DateTime<Utc>` and of
/// `FixedOffset::east_opt` in chrono's source; `timestamp_opt` gives a single
/// time exactly when `DateTime::from_timestamp` does), and it is
/// `chrono_format` of the arguments. Only the diary's own format is passed,
/// which chrono accepts, so `to_string` does not panic.
#[verifier::external_body]
fn format_time(utc_secs: i64, offset_secs: i32, fmt: &str) -> (r: Option<String>)
    requires
        fmt@ == time_format(),
    ensures
        r is Some <==> (timestamp_in_range(utc_secs) && offset_in_range(offset_secs)),
        r matches Some(s) ==> s@ == chrono_format(utc_secs, offset_secs, fmt@),
{
    match FixedOffset::east_opt(offset_secs) {
        Some(zone) => match zone.timestamp_opt(utc_secs, 0) {
            MappedLocalTime::Single(t) => Some(t.format(fmt).to_string()),
            MappedLocalTime::Ambiguous(_, _) => None,
            MappedLocalTime::None => None,
        },
        None => None,
    }
}

/// The line that frames an entry's content.
pub open spec fn rule_line() -> Seq<char> {
    "-------------------------------------------"@
}

/// An entry shown as text: its creation time, the content between two rules,
/// and, for an entry that was changed, the time of the change.
pub open spec fn entry_text(
    created: Seq<char>,
    content: Seq<char>,
    updated: Option<Seq<char>>,
) -> Seq<char> {
    created + "\n"@ + rule_line() + "\n"@ + content + "\n"@ + rule_line() + "\n"@ + match updated {
        Some(u) => "Updated at: "@ + u + "\n"@,
        None => Seq::empty(),
    }
}

/// The text of an entry whose creation time is seen at `created_offset`
/// and whose change time at `updated_offset` seconds east of UTC.
pub open spec fn rendered(e: Entry, created_offset: i32, updated_offset: i32) -> Seq<char> {
    entry_text(
        chrono_format(e.created_at, created_offset, time_format()),
        e.content@,
        match e.updated_at {
            Some(u) => Some(chrono_format(u, updated_offset, time_format())),
            None => None,
        },
    )
}

/// `s` is the text of `e` seen in some time zone.
pub open spec fn is_rendering_of(e: Entry, s: Seq<char>) -> bool {
    exists|o1: i32, o2: i32|
        offset_in_range(o1) && offset_in_range(o2) && s == #[trigger] rendered(e, o1, o2)
}

/// `s` is the text of `e` with each of its times seen at the offset the
/// machine's local time zone gives for that time.
pub open spec fn is_local_rendering_of(e: Entry, s: Seq<char>) -> bool {
    exists|o1: i32, o2: i32|
        {
            &&& offset_in_range(o1)
            &&& offset_in_range(o2)
            &&& zone_offset(e.created_at, o1)
            &&& match e.updated_at {
                Some(u) => zone_offset(u, o2),
                None => true,
            }
            &&& s == #[trigger] rendered(e, o1, o2)
        }
}

impl Entry {
    /// Its times are ones chrono can hold.
    pub open spec fn times_in_range(&self) -> bool {
        &&& timestamp_in_range(self.created_at)
        &&& match self.updated_at {
            Some(u) => timestamp_in_range(u),
            None => true,
        }
    }

    /// The entry as text, its creation time seen `created_offset` seconds and
    /// its change time `updated_offset` seconds east of UTC.
    pub fn render(&self, created_offset: i32, updated_offset: i32) -> (r: String)
        requires
            self.times_in_range(),
            offset_in_range(created_offset),
            offset_in_range(updated_offset),
        ensures
            r@ == rendered(*self, created_offset, updated_offset),
    {
        let fmt = "%A, %B %-d, %Y %-I:%M %p";
        let created = match format_time(self.created_at, created_offset, fmt) {
            Some(s) => s,
            None => String::new(),
        };
        let rule = "-------------------------------------------";
        let mut out = created;
        out.append("\n");
        out.append(rule);
        out.append("\n");
        out.append(self.content.as_str());
        out.append("\n");
        out.append(rule);
        out.append("\n");
        match self.updated_at {
            Some(u) => {
                let updated = match format_time(u, updated_offset, fmt) {
                    Some(s) => s,
                    None => String::new(),
                };
                out.append("Updated at: ");
                out.append(updated.as_str());
                out.append("\n");
            },
            None => {},
        }
        assert(out@ =~= rendered(*self, created_offset, updated_offset));
        out
    }

    /// The entry as text with its times in the machine's local time zone.
    pub fn to_display_string(&self) -> (r: String)
        requires
            self.times_in_range(),
        ensures
            is_rendering_of(*self, r@),
            is_local_rendering_of(*self, r@),
    {
        let created_offset = match local_offset_at(self.created_at) {
            Some(o) => o,
            None => 0,
        };
        let updated_offset = match self.updated_at {
            Some(u) => match local_offset_at(u) {
                Some(o) => o,
                None => 0,
            },
            None => 0,
        };
        let r = self.render(created_offset, updated_offset);
        assert(offset_in_range(created_offset) && offset_in_range(updated_offset)
            && r@ == rendered(*self, created_offset, updated_offset));
        assert(zone_offset(self.created_at, created_offset) && match self.updated_at {
            Some(u) => zone_offset(u, updated_offset),
            None => true,
        });
        r
    }
}

/// How an entry is shown: its creation time (seen at the first offset), a
/// rule of 43 dashes, its content, the rule again, each on a line of its
/// own; then, only for an entry that was changed, a line `Updated at: ` with
/// the time of the change (seen at the second offset).
pub proof fn lemma_entry_text_shape(e: Entry, created_offset: i32, updated_offset: i32)
    ensures
        ({
            let rule = Seq::new(43, |i: int| '-');
            let head = chrono_format(e.created_at, created_offset, time_format()) + seq!['\n']
                + rule + seq!['\n'] + e.content@ + seq!['\n'] + rule + seq!['\n'];
            rendered(e, created_offset, updated_offset) == match e.updated_at {
                None => head,
                Some(u) => head + "Updated at: "@ + chrono_format(u, updated_offset, time_format())
                    + seq!['\n'],
            }
        }),
{
    reveal_strlit("-------------------------------------------");
    reveal_strlit("\n");
    let rule = Seq::new(43, |i: int| '-');
    assert(rule_line() =~= rule);
    assert("\n"@ =~= seq!['\n']);
    let head = chrono_format(e.created_at, created_offset, time_format()) + seq!['\n'] + rule
        + seq!['\n'] + e.content@ + seq!['\n'] + rule + seq!['\n'];
    match e.updated_at {
        None => {
            assert(rendered(e, created_offset, updated_offset) =~= head);
        },
        Some(u) => {
            assert(rendered(e, created_offset, updated_offset) =~= head + "Updated at: "@
                + chrono_format(u, updated_offset, time_format()) + seq!['\n']);
        },
    }
}

} // verus!
