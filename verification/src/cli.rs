//! What the command line asks of the diary, and how listed entries are shown.
use crate::entry::{is_local_rendering_of, is_rendering_of, Entry};
use crate::query::SortOrder;
use crate::text::{decimal, push_decimal};
use vstd::prelude::*;

verus! {

/// The operation named on the command line.
#[derive(Debug, Clone, Copy, PartialEq, Eq, Structural)]
pub enum Mode {
    Create,
    Read,
    Update,
    Delete,
    DumpAll,
}

/// The command line's arguments.
#[derive(Debug)]
pub struct Args {
    pub mode: Mode,
    pub id: Option<i64>,
    pub content: Option<String>,
    pub pinned: Option<bool>,
    pub config: String,
    pub per_page: Option<i64>,
    pub page: Option<i64>,
    pub sort: Option<SortOrder>,
    pub substr: Option<String>,
    pub path: Option<String>,
}

/// What the diary is asked to do.
#[derive(Debug)]
pub enum Request {
    /// Store a new entry.
    Create { content: String, pinned: bool },
    /// Show the entry with this id.
    ReadOne { id: i64 },
    /// Show one page of entries.
    ReadPage {
        page: Option<i64>,
        per_page: Option<i64>,
        sort: Option<SortOrder>,
        pinned: Option<bool>,
        substring: Option<String>,
    },
    /// Delete the entry with this id.
    Delete { id: i64 },
    /// Change the content, the pin, or both, of the entry with this id.
    Update { id: i64, content: Option<String>, pinned: Option<bool> },
    /// Write out every entry, to the file at `path` or to the terminal.
    DumpAll { path: Option<String> },
}

/// The mathematical value of a request.
pub enum RequestView {
    Create { content: Seq<char>, pinned: bool },
    ReadOne { id: i64 },
    ReadPage {
        page: Option<i64>,
        per_page: Option<i64>,
        sort: Option<SortOrder>,
        pinned: Option<bool>,
        substring: Option<Seq<char>>,
    },
    Delete { id: i64 },
    Update { id: i64, content: Option<Seq<char>>, pinned: Option<bool> },
    DumpAll { path: Option<Seq<char>> },
}

pub open spec fn opt_string_view(o: Option<String>) -> Option<Seq<char>> {
    match o {
        Some(s) => Some(s@),
        None => None,
    }
}

impl View for Request {
    type V = RequestView;

    open spec fn view(&self) -> RequestView {
        match self {
            Request::Create { content, pinned } => RequestView::Create {
                content: content@,
                pinned: *pinned,
            },
            Request::ReadOne { id } => RequestView::ReadOne { id: *id },
            Request::ReadPage { page, per_page, sort, pinned, substring } => RequestView::ReadPage {
                page: *page,
                per_page: *per_page,
                sort: *sort,
                pinned: *pinned,
                substring: opt_string_view(*substring),
            },
            Request::Delete { id } => RequestView::Delete { id: *id },
            Request::Update { id, content, pinned } => RequestView::Update {
                id: *id,
                content: opt_string_view(*content),
                pinned: *pinned,
            },
            Request::DumpAll { path } => RequestView::DumpAll { path: opt_string_view(*path) },
        }
    }
}

/// Why the command line's arguments do not make a request.
#[derive(Debug, Clone, Copy, PartialEq, Eq, Structural)]
pub enum CliError {
    /// Creating an entry without its content.
    MissingContent,
    /// Deleting or updating without the entry's id.
    MissingId,
}

pub open spec fn cli_error_message(e: CliError) -> Seq<char> {
    match e {
        CliError::MissingContent => "Content must be provided for this operation"@,
        CliError::MissingId => "Entry ID must be provided for this operation."@,
    }
}

impl CliError {
    /// The message this error is reported with.
    pub fn message(&self) -> (r: String)
        ensures
            r@ == cli_error_message(*self),
    {
        match self {
            CliError::MissingContent => String::from_str(
                "Content must be provided for this operation",
            ),
            CliError::MissingId => String::from_str("Entry ID must be provided for this operation."),
        }
    }
}

/// The request the arguments make: creating needs the content (an entry is
/// unpinned unless asked otherwise); reading shows the entry with the id when
/// one is given, else a page of entries; deleting and updating need the id.
pub open spec fn request_for(a: Args) -> Result<RequestView, CliError> {
    match a.mode {
        Mode::Create => match a.content {
            None => Err(CliError::MissingContent),
            Some(c) => Ok(
                RequestView::Create {
                    content: c@,
                    pinned: match a.pinned {
                        Some(p) => p,
                        None => false,
                    },
                },
            ),
        },
        Mode::Read => match a.id {
            Some(id) => Ok(RequestView::ReadOne { id }),
            None => Ok(
                RequestView::ReadPage {
                    page: a.page,
                    per_page: a.per_page,
                    sort: a.sort,
                    pinned: a.pinned,
                    substring: opt_string_view(a.substr),
                },
            ),
        },
        Mode::Delete => match a.id {
            None => Err(CliError::MissingId),
            Some(id) => Ok(RequestView::Delete { id }),
        },
        Mode::Update => match a.id {
            None => Err(CliError::MissingId),
            Some(id) => Ok(
                RequestView::Update {
                    id,
                    content: opt_string_view(a.content),
                    pinned: a.pinned,
                },
            ),
        },
        Mode::DumpAll => Ok(RequestView::DumpAll { path: opt_string_view(a.path) }),
    }
}

/// The request the command line's arguments make, or why they make none.
pub fn request_from_args(args: Args) -> (r: Result<Request, CliError>)
    ensures
        match r {
            Ok(req) => request_for(args) == Ok::<RequestView, CliError>(req@),
            Err(e) => request_for(args) == Err::<RequestView, CliError>(e),
        },
{
    match args.mode {
        Mode::Create => match args.content {
            None => Err(CliError::MissingContent),
            Some(content) => {
                let pinned = match args.pinned {
                    Some(p) => p,
                    None => false,
                };
                Ok(Request::Create { content, pinned })
            },
        },
        Mode::Read => match args.id {
            Some(id) => Ok(Request::ReadOne { id }),
            None => Ok(
                Request::ReadPage {
                    page: args.page,
                    per_page: args.per_page,
                    sort: args.sort,
                    pinned: args.pinned,
                    substring: args.substr,
                },
            ),
        },
        Mode::Delete => match args.id {
            None => Err(CliError::MissingId),
            Some(id) => Ok(Request::Delete { id }),
        },
        Mode::Update => match args.id {
            None => Err(CliError::MissingId),
            Some(id) => Ok(Request::Update { id, content: args.content, pinned: args.pinned }),
        },
        Mode::DumpAll => Ok(Request::DumpAll { path: args.path }),
    }
}

/// The parts joined with `sep` between each two.
pub open spec fn join(parts: Seq<Seq<char>>, sep: Seq<char>) -> Seq<char>
    decreases parts.len(),
{
    if parts.len() == 0 {
        Seq::empty()
    } else if parts.len() == 1 {
        parts[0]
    } else {
        join(parts.drop_last(), sep) + sep + parts.last()
    }
}

/// The text a listing is shown as: the count of entries, then the entries
/// separated by blank lines.
pub open spec fn listing_text(parts: Seq<Seq<char>>) -> Seq<char> {
    "\nFound "@ + decimal(parts.len()) + " entries.\n\n"@ + join(parts, "\n\n"@) + "\n"@
}

/// The listing of entries as text, each as `Entry::to_display_string` shows
/// it: in the machine's local time zone.
pub fn entries_report(entries: &Vec<Entry>) -> (r: String)
    requires
        forall|i: int| 0 <= i < entries@.len() ==> (#[trigger] entries@[i]).times_in_range(),
    ensures
        exists|parts: Seq<Seq<char>>|
            {
                &&& parts.len() == entries@.len()
                &&& forall|i: int|
                    0 <= i < parts.len() ==> is_rendering_of(entries@[i], #[trigger] parts[i])
                &&& forall|i: int|
                    0 <= i < parts.len() ==> is_local_rendering_of(
                        entries@[i],
                        #[trigger] parts[i],
                    )
                &&& r@ == listing_text(parts)
            },
{
    let n = entries.len();
    let mut body = String::new();
    let ghost mut parts: Seq<Seq<char>> = Seq::empty();
    let mut i: usize = 0;
    while i < n
        invariant
            n == entries@.len(),
            i <= n,
            forall|j: int| 0 <= j < entries@.len() ==> (#[trigger] entries@[j]).times_in_range(),
            parts.len() == i,
            forall|j: int| 0 <= j < i ==> is_rendering_of(entries@[j], #[trigger] parts[j]),
            forall|j: int| 0 <= j < i ==> is_local_rendering_of(entries@[j], #[trigger] parts[j]),
            body@ == join(parts, "\n\n"@),
        decreases n - i,
    {
        let text = entries[i].to_display_string();
        let ghost before = parts;
        if i > 0 {
            body.append("\n\n");
        }
        body.append(text.as_str());
        proof {
            parts = parts.push(text@);
            assert(parts.drop_last() =~= before);
            assert(body@ =~= join(parts, "\n\n"@));
        }
        i = i + 1;
    }
    let mut out = String::from_str("\nFound ");
    push_decimal(&mut out, n as u64);
    out.append(" entries.\n\n");
    out.append(body.as_str());
    out.append("\n");
    assert(out@ =~= listing_text(parts));
    out
}

/// A request carries the arguments' own values: creating stores the given
/// content, pinned only when the pin given is `true`; reading one entry
/// reads the given id; listing uses the given page, size, order, pin and
/// substring; deleting deletes the given id; updating changes the given id's
/// content and pin to exactly the given ones; dumping writes to the given
/// path. Creating without content, and deleting or updating without an id,
/// is refused.
pub proof fn lemma_request_carries_arguments(a: Args)
    ensures
        a.mode == Mode::Create ==> (match a.content {
            Some(c) => request_for(a) matches Ok(RequestView::Create { content, pinned })
                && content == c@ && pinned == (a.pinned == Some(true)),
            None => request_for(a) == Err::<RequestView, CliError>(CliError::MissingContent),
        }),
        a.mode == Mode::Read ==> (match a.id {
            Some(i) => request_for(a) matches Ok(RequestView::ReadOne { id }) && id == i,
            None => request_for(a) matches Ok(
                RequestView::ReadPage { page, per_page, sort, pinned, substring },
            ) && page == a.page && per_page == a.per_page && sort == a.sort && pinned == a.pinned
                && substring == opt_string_view(a.substr),
        }),
        a.mode == Mode::Delete ==> (match a.id {
            Some(i) => request_for(a) matches Ok(RequestView::Delete { id }) && id == i,
            None => request_for(a) == Err::<RequestView, CliError>(CliError::MissingId),
        }),
        a.mode == Mode::Update ==> (match a.id {
            Some(i) => request_for(a) matches Ok(RequestView::Update { id, content, pinned })
                && id == i && content == opt_string_view(a.content) && pinned == a.pinned,
            None => request_for(a) == Err::<RequestView, CliError>(CliError::MissingId),
        }),
        a.mode == Mode::DumpAll ==> (request_for(a) matches Ok(RequestView::DumpAll { path })
            && path == opt_string_view(a.path)),
{
}

} // verus!
