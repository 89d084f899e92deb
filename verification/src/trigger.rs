//! When a header is inserted: into a document that is opened blank, where a
//! configuration file exists.
//!
//! Opening a document takes two steps with the caller's look at the file
//! system between them. `plan_open` says where the opened file lies and where
//! its configuration is looked for, or that the document gets no header in
//! any case. The caller reports what it found at those places, and
//! `on_document_opened` gives the insertion to make, if any.

use crate::clock::{Stamp, StampView};
use crate::config::Config;
use crate::path::{local_path, to_local_path, PathStyle};
use crate::render::{header, render};
use crate::resolver::{any_present, probe_views, resolve, search_places, search_places_for};
use crate::resolver::{Probe, ProbeView};
use crate::text::{blank, chars_of, is_blank, string_texts};
use crate::workspace::{workspace_root, WorkspaceRegistry};
use vstd::prelude::*;

verus! {

/// A place in a document: a line and a character in it, both counted from 0.
#[derive(Debug, Clone, Copy, PartialEq, Eq)]
pub struct Position {
    pub line: u32,
    pub character: u32,
}

/// One insertion of text into a document. The text goes in at `start`;
/// nothing is replaced, so `end` is `start`.
#[derive(Debug)]
pub struct TextInsertion {
    pub start: Position,
    pub end: Position,
    pub text: String,
}

/// What to look at before a header can go into an opened document: the path
/// of the document's file, and the places at which its configuration is
/// looked for, in the order of the search.
#[derive(Debug)]
pub struct OpenPlan {
    pub file_path: String,
    pub places: Vec<String>,
}

/// The text to insert into a document that was opened, if any. A header goes
/// only into a blank document, and only where a configuration file was found
/// at some place of the search; it is then the header that the search's
/// configuration gives the file.
pub open spec fn insertion_text(
    path: Seq<char>,
    content: Seq<char>,
    probes: Seq<ProbeView>,
    stamp: StampView,
    style: PathStyle,
) -> Option<Seq<char>> {
    if is_blank(content) && any_present(probes) {
        Some(header(resolve(probes), path, stamp, style))
    } else {
        None
    }
}

/// Whether `insertion` puts `text` in at the start of the document.
pub open spec fn inserts_at_start(insertion: TextInsertion, text: Seq<char>) -> bool {
    &&& insertion.text@ == text
    &&& insertion.start == (Position { line: 0, character: 0 })
    &&& insertion.end == (Position { line: 0, character: 0 })
}

/// Whether `plan` is the plan for the document at the address path
/// `uri_path`: its file path is the local path of the address, and its places
/// are those of the search from the file's workspace root, for some
/// directories of the user.
pub open spec fn plans_open(
    plan: OpenPlan,
    uri_path: Seq<char>,
    roots: Seq<Seq<char>>,
    style: PathStyle,
) -> bool {
    &&& plan.file_path@ == local_path(uri_path, style)
    &&& exists|config_dir: Option<Seq<char>>, home_dir: Option<Seq<char>>|
        string_texts(plan.places@) == #[trigger] search_places(
            workspace_root(roots, plan.file_path@, style),
            config_dir,
            home_dir,
            style,
        )
}

/// Whether a document with this content may get a header: whether it is
/// blank.
pub fn is_eligible(content: &str) -> (eligible: bool)
    ensures
        eligible == is_blank(content@),
{
    blank(&chars_of(content))
}

/// The first step for a document that was opened at the address path
/// `uri_path` with `content`: no plan for a document that is not blank, which
/// gets no header whatever the search would find; else the plan of what to
/// look at.
pub fn plan_open(
    uri_path: &str,
    content: &str,
    registry: &WorkspaceRegistry,
    style: PathStyle,
) -> (plan: Option<OpenPlan>)
    ensures
        plan is Some <==> is_blank(content@),
        plan matches Some(p) ==> plans_open(p, uri_path@, registry@, style),
{
    if !is_eligible(content) {
        return None;
    }
    let file_path = to_local_path(uri_path, style);
    let places = match registry.root_for(file_path.as_str(), style) {
        Some(root) => search_places_for(Some(root.as_str()), style),
        None => search_places_for(None, style),
    };
    Some(OpenPlan { file_path, places })
}

/// The header of the file at `file_path`, as an insertion at the start of its
/// document.
fn header_insertion(file_path: &str, probes: &Vec<Probe>, stamp: &Stamp, style: PathStyle) -> (ins:
    TextInsertion)
    ensures
        inserts_at_start(ins, header(resolve(probe_views(probes@)), file_path@, stamp@, style)),
{
    let config = Config::load_from_workspace(probes);
    let text = render(&config, file_path, stamp, style);
    let origin = Position { line: 0, character: 0 };
    TextInsertion { start: origin, end: origin, text }
}

/// The insertion to make into the document at `file_path` that was opened
/// with `content`, at the moment `stamp`, given what the search found.
pub fn insertion_at(
    file_path: &str,
    content: &str,
    probes: &Vec<Probe>,
    stamp: &Stamp,
    style: PathStyle,
) -> (insertion: Option<TextInsertion>)
    ensures
        match insertion_text(file_path@, content@, probe_views(probes@), stamp@, style) {
            Some(text) => insertion matches Some(ins) && inserts_at_start(ins, text),
            None => insertion is None,
        },
        !is_blank(content@) ==> insertion is None,
        !any_present(probe_views(probes@)) ==> insertion is None,
{
    if is_eligible(content) && Config::config_exists(probes) {
        Some(header_insertion(file_path, probes, stamp, style))
    } else {
        None
    }
}

/// The insertion to make into the document at `file_path` that was opened
/// with `content`, at the present moment by the local clock, given what the
/// search found. A document that is not blank gets none, whatever was found;
/// a blank one gets none where no configuration file was found at any place,
/// though a template is built in.
pub fn on_document_opened(
    file_path: &str,
    content: &str,
    probes: &Vec<Probe>,
    style: PathStyle,
) -> (insertion: Option<TextInsertion>)
    ensures
        !is_blank(content@) ==> insertion is None,
        !any_present(probe_views(probes@)) ==> insertion is None,
        is_blank(content@) && any_present(probe_views(probes@)) ==> (insertion matches Some(ins)
            && exists|stamp: StampView|
            stamp.is_calendar() && inserts_at_start(
                ins,
                #[trigger] header(resolve(probe_views(probes@)), file_path@, stamp, style),
            )),
{
    if is_eligible(content) && Config::config_exists(probes) {
        let stamp = Stamp::now();
        let ins = header_insertion(file_path, probes, &stamp, style);
        Some(ins)
    } else {
        None
    }
}

} // verus!
