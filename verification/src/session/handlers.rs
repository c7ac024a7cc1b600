//! What the handlers of the candidate providers decide before and after
//! the work that is done outside.

use vstd::prelude::*;
use vstd::string::StringExecFns;
use crate::path_node::DirListing;
use crate::preview::lines_between;
use crate::preview::select_lines;
use crate::scale::Scale;
use crate::scale::scale_of;
use crate::session::context::SessionContext;
use crate::text::decimal;
use crate::text::text_rank;
use crate::text::texts;
use crate::text::u64_to_string;
use crate::tree_explorer::TreeExplorer;

verus! {

/// How many lines of the forerunner's result go to the editor at once.
pub const ON_INIT_LINES: usize = 30;

/// How many project tags go to the editor at once.
pub const PROJ_TAGS_INIT_LINES: usize = 100;

/// The provider that searches the lines of the current buffer.
pub open spec fn buffer_lines_provider() -> Seq<char> {
    "blines"@
}

/// The handler of the providers that need nothing of their own.
#[derive(Clone, Copy, Debug)]
pub struct DefaultEventHandler;

/// Where a typed query of the default handler is run.
#[derive(Clone, Copy, Debug, PartialEq, Eq, Structural)]
pub enum TypedSource {
    /// The lines of the buffer, each with its number in front.
    BufferLines,
}

/// Why a handler could not serve a request.
#[derive(Debug)]
pub enum HandlerError {
    /// The default handler does not know the provider.
    UnknownProvider(String),
}

impl HandlerError {
    /// The message sent to the editor.
    pub open spec fn message_spec(&self) -> Seq<char> {
        match self {
            HandlerError::UnknownProvider(provider) => "Unknown provider_id: "@ + provider@
                + " in general handle_on_typed"@,
        }
    }

    /// The message sent to the editor.
    pub fn message(&self) -> (text: String)
        ensures
            text@ == self.message_spec(),
    {
        match self {
            HandlerError::UnknownProvider(provider) => {
                let mut text = String::from_str("Unknown provider_id: ");
                text.append(provider.as_str());
                text.append(" in general handle_on_typed");
                text
            },
        }
    }
}

/// Line `number` of a buffer as a candidate: the number, a blank, the text.
pub open spec fn numbered(number: nat, line: Seq<char>) -> Seq<char> {
    decimal(number) + seq![' '] + line
}

impl DefaultEventHandler {
    /// Whether the forerunner of `provider_id` counts the lines of the
    /// buffer. Only the buffer-lines provider has such a forerunner.
    pub fn counts_buffer_lines(provider_id: &str) -> (counts: bool)
        ensures
            counts == (provider_id@ == buffer_lines_provider()),
    {
        text_rank(provider_id, "blines") == 1
    }

    /// Where a typed query for `provider_id` is run; an error for a
    /// provider that the default handler does not know.
    pub fn typed_source(provider_id: &str) -> (source: Result<TypedSource, HandlerError>)
        ensures
            provider_id@ == buffer_lines_provider() ==> source == Ok::<TypedSource, HandlerError>(
                TypedSource::BufferLines,
            ),
            provider_id@ != buffer_lines_provider() ==> (source matches Err(
                HandlerError::UnknownProvider(name),
            ) && name@ == provider_id@),
    {
        if text_rank(provider_id, "blines") == 1 {
            Ok(TypedSource::BufferLines)
        } else {
            Err(HandlerError::UnknownProvider(String::from_str(provider_id)))
        }
    }

    /// The lines of a buffer as candidates: each with its one-based number
    /// and a blank in front.
    pub fn numbered_lines(lines: &Vec<String>) -> (candidates: Vec<String>)
        ensures
            candidates@.len() == lines@.len(),
            forall|i: int|
                0 <= i < lines@.len() ==> (#[trigger] candidates@[i])@ == numbered(
                    (i + 1) as nat,
                    lines@[i]@,
                ),
    {
        let mut candidates: Vec<String> = Vec::new();
        let mut i: usize = 0;
        while i < lines.len()
            invariant
                i <= lines@.len(),
                candidates@.len() == i,
                forall|k: int|
                    0 <= k < i ==> (#[trigger] candidates@[k])@ == numbered((k + 1) as nat, lines@[k]@),
            decreases lines@.len() - i,
        {
            let mut text = u64_to_string(i as u64 + 1);
            text.push(' ');
            text.append(lines[i].as_str());
            assert(text@ =~= numbered((i + 1) as nat, lines@[i as int]@));
            candidates.push(text);
            i += 1;
        }
        candidates
    }
}

/// What the forerunner of a session reports when its provider has
/// `total` candidates: the scale for the buffer-lines provider, nothing
/// for any other.
pub fn on_create(context: &SessionContext, total: usize) -> (scale: Option<Scale>)
    ensures
        scale == if context.provider()@ == buffer_lines_provider() {
            Some(scale_of(total as nat))
        } else {
            None
        },
{
    if DefaultEventHandler::counts_buffer_lines(context.provider_id().as_str()) {
        Some(Scale::classify(total))
    } else {
        None
    }
}

/// What the editor is told once the forerunner has its candidates.
pub struct InitialResponse {
    /// How many candidates there are.
    pub initial_size: usize,
    /// The first of them.
    pub lines: Vec<String>,
}

/// The first answer for a session whose forerunner found `lines`: their
/// number and the first `limit` of them. Nothing is answered for a
/// session that was terminated in the meantime.
pub fn initial_response(context: &SessionContext, lines: &Vec<String>, limit: usize) -> (response: Option<
    InitialResponse,
>)
    ensures
        context.alive() ==> (response matches Some(first) && first.initial_size == lines@.len()
            && first.lines@ == lines_between(lines@, 0, limit as int)),
        !context.alive() ==> response is None,
{
    if context.is_alive() {
        Some(InitialResponse { initial_size: lines.len(), lines: select_lines(lines, 0, limit) })
    } else {
        None
    }
}

/// What looking at the path under the cursor gave.
pub enum PathProbe {
    /// A file, with its canonical path.
    File(String),
    /// Anything else, with what reading it as a directory gave.
    Other(DirListing),
}

/// What the explorer answers to a toggle.
pub enum ExplorerReply {
    /// Open this file.
    File(String),
    /// Show these lines.
    Lines(Vec<String>),
}

/// The handler of the file explorer.
pub struct ExplorerMessageHandler {
    pub tree_explorer: TreeExplorer,
}

impl ExplorerMessageHandler {
    /// Toggles at the one-based line `lnum`. On a file the tree stays as
    /// it is and the file is to be opened; on anything else the node is
    /// toggled and the tree is drawn again.
    pub fn handle_toggle(&mut self, lnum: usize, probe: &PathProbe) -> (reply: ExplorerReply)
        requires
            lnum >= 1,
        ensures
            match *probe {
                PathProbe::File(canonical) => {
                    &&& reply == ExplorerReply::File(canonical)
                    &&& final(self).tree_explorer == old(self).tree_explorer
                },
                PathProbe::Other(listing) => {
                    &&& reply matches ExplorerReply::Lines(lines)
                    &&& texts(lines@) == final(self).tree_explorer.renderer.style().lines(
                        final(self).tree_explorer.root_node@,
                        0,
                    )
                    &&& final(self).tree_explorer.toggled_from(
                        &old(self).tree_explorer,
                        (lnum - 1) as usize,
                        listing,
                    )
                },
            },
    {
        match probe {
            PathProbe::File(canonical) => ExplorerReply::File(canonical.clone()),
            PathProbe::Other(listing) => ExplorerReply::Lines(
                self.tree_explorer.do_toggle(lnum - 1, listing),
            ),
        }
    }
}

/// The handler of the project-tags provider.
///
/// Lines that are very long slow the editor down when they are passed
/// back and forth, so the handler keeps the lines it has sent and is asked
/// for them by number.
#[derive(Debug)]
pub struct ProjTagsMessageHandler {
    lines: Vec<String>,
}

impl ProjTagsMessageHandler {
    /// The lines kept.
    pub closed spec fn kept(&self) -> Seq<String> {
        self.lines@
    }

    /// A handler that has sent nothing yet.
    pub fn new() -> (handler: ProjTagsMessageHandler)
        ensures
            handler.kept().len() == 0,
    {
        ProjTagsMessageHandler { lines: Vec::new() }
    }

    /// Keeps the lines that the last typed query gave, in place of those
    /// kept before.
    pub fn remember(&mut self, lines: Vec<String>)
        ensures
            final(self).kept() == lines@,
    {
        self.lines = lines;
    }

    /// The line with the one-based number `lnum`, if it was kept.
    pub fn line(&self, lnum: usize) -> (line: Option<&String>)
        ensures
            line == if 1 <= lnum <= self.kept().len() {
                Some(&self.kept()[lnum - 1])
            } else {
                None
            },
    {
        if lnum >= 1 && lnum <= self.lines.len() {
            Some(&self.lines[lnum - 1])
        } else {
            None
        }
    }
}

} // verus!
