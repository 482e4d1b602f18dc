//! What the commands read of the editor.
use vstd::prelude::*;

use crate::change::LineEnding;

verus! {

/// A document that is open.
#[derive(Clone, Copy, Debug, PartialEq, Eq, Structural)]
pub struct DocumentId {
    /// The document's number.
    pub number: u64,
}

/// A view of a document.
#[derive(Clone, Copy, Debug, PartialEq, Eq, Structural)]
pub struct ViewId {
    /// The view's number.
    pub number: u64,
}

/// A language server.
#[derive(Clone, Copy, Debug, PartialEq, Eq, Structural)]
pub struct ServerId {
    /// The server's number.
    pub number: u64,
}

/// How lines are indented.
#[derive(Clone, Copy, Debug, PartialEq, Eq, Structural)]
pub enum IndentStyle {
    /// By tabs.
    Tabs,
    /// By that many spaces.
    Spaces(u8),
}

/// The greatest number of spaces by which lines can be indented.
pub const MAX_INDENT: u8 = 16;

/// A document, as far as the commands read it.
#[derive(Debug, PartialEq, Eq)]
pub struct Document {
    /// The document's number.
    pub id: DocumentId,
    /// The path of its file, by its components.
    pub path: Option<Vec<String>>,
    /// The same path, seen from the working directory.
    pub relative_path: Option<Vec<String>>,
    /// The name under which it is shown.
    pub display_name: String,
    /// Whether it has changes that are not saved.
    pub modified: bool,
    /// Whether something can format it.
    pub formatter: bool,
    /// Whether it is to be formatted when it is saved, and something can format it.
    pub auto_formatter: bool,
    /// How its lines are indented.
    pub indent_style: IndentStyle,
    /// How its lines end.
    pub line_ending: LineEnding,
    /// The name of its encoding.
    pub encoding: String,
    /// The name of its language.
    pub language_name: Option<String>,
    /// The width to which its language's text is wrapped.
    pub text_width: Option<usize>,
    /// The names of the language servers that its language is configured with; nothing without
    /// a configuration.
    pub configured_servers: Option<Vec<String>>,
    /// The names of the language servers that serve it.
    pub servers: Vec<String>,
    /// The views in which something of it is selected.
    pub views: Vec<ViewId>,
}

/// A view, as far as the commands read it.
#[derive(Clone, Copy, Debug, PartialEq, Eq, Structural)]
pub struct ViewInfo {
    /// The view's number.
    pub id: ViewId,
    /// The document that it shows.
    pub doc: DocumentId,
}

/// Where a debugger has stopped.
#[derive(Clone, Copy, Debug, PartialEq, Eq, Structural)]
pub struct Debugger {
    /// The active stack frame.
    pub active_frame: Option<usize>,
    /// The stopped thread.
    pub thread_id: Option<i64>,
}

/// A language server and the workspace commands that it offers.
#[derive(Debug, PartialEq, Eq)]
pub struct CommandServer {
    /// The server.
    pub server: ServerId,
    /// The names of the commands.
    pub commands: Vec<String>,
}

/// The editor, as far as the commands read it.
#[derive(Debug, PartialEq, Eq)]
pub struct Editor {
    /// The open documents.
    pub documents: Vec<Document>,
    /// Which of them is in focus.
    pub current: usize,
    /// The views.
    pub views: Vec<ViewInfo>,
    /// The view in focus.
    pub current_view: ViewId,
    /// Whether a saved text is given a line ending at its end.
    pub insert_final_newline: bool,
    /// Whether a document is formatted when it is saved.
    pub auto_format: bool,
    /// Whether Unicode's line breaks beyond the line feed count.
    pub unicode_lines: bool,
    /// Whether the terminal shows all colors.
    pub true_color: bool,
    /// The width to which text is wrapped.
    pub text_width: usize,
    /// The register that has been selected for the next command.
    pub selected_register: Option<char>,
    /// The name of what provides the clipboard.
    pub clipboard_provider: String,
    /// The name of the theme.
    pub theme_name: String,
    /// The working directory before the last change of it.
    pub last_cwd: Option<String>,
    /// Whether a selection is kept that a preview of a line has left.
    pub last_selection: bool,
    /// The debugger, if there is one.
    pub debugger: Option<Debugger>,
    /// The language servers of the document in focus that execute workspace commands.
    pub command_servers: Vec<CommandServer>,
    /// The name of the language of a document that has none.
    pub default_language: String,
}

/// Whether no two documents have the same number.
pub open spec fn distinct_ids(documents: Seq<Document>) -> bool {
    forall|i: int, j: int|
        0 <= i < documents.len() && 0 <= j < documents.len() && #[trigger] documents[i].id
            == #[trigger] documents[j].id ==> i == j
}

/// Whether the line ending of every document counts as one.
pub open spec fn recognized_endings(documents: Seq<Document>, unicode_lines: bool) -> bool {
    forall|i: int|
        0 <= i < documents.len() ==> (#[trigger] documents[i]).line_ending.recognized(
            unicode_lines,
        )
}

impl Editor {
    /// The document in focus is one of the open ones, no two of which have the same number. Their
    /// lines end in a way that counts.
    pub open spec fn wf(self) -> bool {
        &&& self.current < self.documents.len()
        &&& distinct_ids(self.documents@)
        &&& recognized_endings(self.documents@, self.unicode_lines)
    }

    /// Whether an editor can be given to the commands.
    pub fn is_valid(&self) -> (r: bool)
        ensures
            r == self.wf(),
    {
        if self.current >= self.documents.len() {
            return false;
        }
        let ghost docs = self.documents@;
        let mut i: usize = 0;
        while i < self.documents.len()
            invariant
                docs == self.documents@,
                i <= docs.len(),
                forall|k: int, j: int|
                    0 <= k < i && 0 <= j < docs.len() && #[trigger] docs[k].id
                        == #[trigger] docs[j].id ==> k == j,
                forall|k: int|
                    0 <= k < i ==> (#[trigger] docs[k]).line_ending.recognized(
                        self.unicode_lines,
                    ),
            decreases docs.len() - i,
        {
            if !self.documents[i].line_ending.is_recognized(self.unicode_lines) {
                assert(!docs[i as int].line_ending.recognized(self.unicode_lines));
                return false;
            }
            let mut j: usize = 0;
            while j < self.documents.len()
                invariant
                    docs == self.documents@,
                    i < docs.len(),
                    j <= docs.len(),
                    forall|k: int|
                        0 <= k < j && docs[i as int].id == #[trigger] docs[k].id ==> i == k,
                decreases docs.len() - j,
            {
                if i != j && self.documents[i].id == self.documents[j].id {
                    assert(docs[i as int].id == docs[j as int].id);
                    return false;
                }
                j = j + 1;
            }
            i = i + 1;
        }
        true
    }

    /// The document in focus.
    pub open spec fn doc_spec(self) -> Document {
        self.documents[self.current as int]
    }

    /// The document in focus.
    pub fn doc(&self) -> (r: &Document)
        requires
            self.wf(),
        ensures
            *r == self.doc_spec(),
    {
        &self.documents[self.current]
    }

    /// The document in focus and the view that shows it.
    pub open spec fn place_spec(self) -> Place {
        Place { doc: self.doc_spec().id, view: ViewRef::Id(self.current_view) }
    }

    /// The document in focus and the view that shows it.
    pub fn place(&self) -> (r: Place)
        requires
            self.wf(),
        ensures
            r == self.place_spec(),
    {
        Place { doc: self.doc().id, view: ViewRef::Id(self.current_view) }
    }
}

/// A view, named or to be found.
#[derive(Clone, Copy, Debug, PartialEq, Eq, Structural)]
pub enum ViewRef {
    /// The view of that number.
    Id(ViewId),
    /// The view that was brought up to date with that document.
    SyncedWith(DocumentId),
}

/// A document and the view of it through which it is changed.
#[derive(Clone, Copy, Debug, PartialEq, Eq, Structural)]
pub struct Place {
    /// The document.
    pub doc: DocumentId,
    /// The view.
    pub view: ViewRef,
}

/// When an editor is well-formed: the shown document is one of its documents, no two of them have
/// the same number, and each ends its lines as lines are recognized to end.
pub proof fn lemma_well_formed(editor: Editor)
    ensures
        editor.wf() <==> {
            &&& editor.current < editor.documents.len()
            &&& forall|i: int, j: int|
                0 <= i < j < editor.documents.len() ==> (#[trigger] editor.documents@[i]).id.number
                    != (#[trigger] editor.documents@[j]).id.number
            &&& forall|i: int|
                0 <= i < editor.documents.len() ==> editor.unicode_lines || (
                #[trigger] editor.documents@[i]).line_ending == LineEnding::Crlf
                    || editor.documents@[i].line_ending == LineEnding::LF
        },
{
    if editor.current < editor.documents.len() && forall|i: int, j: int|
        0 <= i < j < editor.documents.len() ==> (#[trigger] editor.documents@[i]).id.number != (
        #[trigger] editor.documents@[j]).id.number {
        assert(distinct_ids(editor.documents@));
    }
    if editor.wf() {
        assert forall|i: int, j: int| 0 <= i < j < editor.documents.len() implies (
        #[trigger] editor.documents@[i]).id.number != (#[trigger] editor.documents@[j]).id.number by {
            if editor.documents@[i].id.number == editor.documents@[j].id.number {
                assert(editor.documents@[i].id == editor.documents@[j].id);
            }
        }
    }
}

} // verus!
