//! The document the person opens, and the use case that asks them for one.
use vstd::prelude::*;
use crate::text::{chars_of, text_option};

verus! {

/// `Path::file_name` followed by `OsStr::to_str`: the last component of the
/// path as text. What it is depends on the platform's path syntax, so
/// nothing is stated of it here; `display_name_for` says what becomes of
/// every possible answer.
#[verifier::external_body]
fn final_component(path: &std::path::PathBuf) -> Option<String> {
    path.file_name().and_then(|name| name.to_str()).map(|name| name.to_owned())
}

/// The name shown for a document with no usable file name.
pub open spec fn untitled_document() -> Seq<char> {
    "Documento PDF"@
}

/// The title shown for a document whose file name is `file_name`: the name
/// itself when there is a non-empty one, else the generic title.
pub open spec fn display_title(file_name: Option<Seq<char>>) -> Seq<char> {
    match file_name {
        Some(name) => if name.len() > 0 {
            name
        } else {
            untitled_document()
        },
        None => untitled_document(),
    }
}

/// The title shown for a document whose file name is `file_name`.
pub fn display_name_for(file_name: Option<String>) -> (r: String)
    ensures
        r@ == display_title(text_option(file_name)),
{
    match file_name {
        Some(name) => {
            let characters = chars_of(name.as_str());
            if characters.len() > 0 {
                name
            } else {
                String::from_str("Documento PDF")
            }
        },
        None => String::from_str("Documento PDF"),
    }
}

/// An opened (or about to be opened) PDF and the title shown for it.
#[derive(Debug, PartialEq, Eq)]
pub struct DocumentRef {
    path: std::path::PathBuf,
    display_name: String,
}

impl DocumentRef {
    /// Every document has a title to show.
    #[verifier::type_invariant]
    spec fn has_title(self) -> bool {
        self.display_name@.len() > 0
    }

    /// Where the document lives.
    pub closed spec fn location(self) -> std::path::PathBuf {
        self.path
    }

    /// The title shown for the document.
    pub closed spec fn title(self) -> Seq<char> {
        self.display_name@
    }

    /// The document at `path`, titled with its file name, or "Documento
    /// PDF" when the path has no non-empty, valid-text file name.
    pub fn from_path(path: std::path::PathBuf) -> (r: Self)
        ensures
            r.location() == path,
            exists|name: Option<Seq<char>>| r.title() == display_title(name),
            r.title().len() > 0,
    {
        let file_name = final_component(&path);
        let ghost seen = text_option(file_name);
        let display_name = display_name_for(file_name);
        proof {
            reveal_strlit("Documento PDF");
            assert(display_name@ == display_title(seen));
        }
        DocumentRef { path, display_name }
    }

    /// Where the document lives.
    pub fn path(&self) -> (r: &std::path::PathBuf)
        ensures
            *r == self.location(),
    {
        &self.path
    }

    /// The title shown for the document.
    pub fn display_name(&self) -> (r: &str)
        ensures
            r@ == self.title(),
    {
        self.display_name.as_str()
    }
}

impl Clone for DocumentRef {
    /// The same document under the same title.
    fn clone(&self) -> (r: Self)
        ensures
            r == *self,
    {
        proof {
            use_type_invariant(self);
        }
        DocumentRef { path: self.path.clone(), display_name: self.display_name.clone() }
    }
}

/// Asks the person which PDF to open. Implementations may state in their
/// own `ensures` what they answer; `OpenDocument::execute` hands that on.
pub trait DocumentPicker {
    fn pick_pdf(&self) -> Option<DocumentRef>;
}

/// Opening a document: whatever the picker hands back.
pub struct OpenDocument<P> {
    picker: P,
}

impl<P: DocumentPicker> OpenDocument<P> {
    pub closed spec fn picker(self) -> P {
        self.picker
    }

    pub fn new(picker: P) -> (r: Self)
        ensures
            r.picker() == picker,
    {
        OpenDocument { picker }
    }

    /// The document the person picked, if any: exactly what one call of the
    /// picker's `pick_pdf` answered (so whatever that method's own contract
    /// promises holds of it); whichever it is, it has a title to show.
    pub fn execute(&self) -> (r: Option<DocumentRef>)
        ensures
            call_ensures(P::pick_pdf, (&self.picker(),), r),
            r matches Some(d) ==> d.title().len() > 0,
    {
        let picked = self.picker.pick_pdf();
        proof {
            if let Some(d) = &picked {
                use_type_invariant(d);
            }
        }
        picked
    }
}

// ------------------------------------------------------------- opening

/// What the PDF engine answered when asked to open a document: its page
/// count, that it needs a password, or why it failed.
#[derive(Clone, Debug, PartialEq, Eq)]
pub enum OpenReply {
    Opened(u32),
    PasswordRequired,
    Failed(String),
}

/// What the viewer does with an answer: drop it (a newer request has been
/// made since), show the document, ask for the password with the status
/// given, or show the error.
#[derive(Clone, Debug, PartialEq, Eq)]
pub enum OpenAction {
    Ignore,
    Show { page_count: u32 },
    AskPassword { status: String },
    ShowError { message: String },
}

/// The error shown for a document without pages.
pub open spec fn no_pages_text() -> Seq<char> {
    "El PDF no contiene páginas."@
}

/// The status shown when a password is asked for: a retry says the last
/// one was wrong, a first request says nothing.
pub open spec fn unlock_status_text(with_password: bool) -> Seq<char> {
    if with_password {
        "La contraseña no es correcta. Inténtalo de nuevo."@
    } else {
        Seq::<char>::empty()
    }
}

/// What to do with the engine's answer to the open request numbered
/// `token`, when the latest request is numbered `generation` and the
/// request carried a password when `with_password`. An answer to an older
/// request is dropped; a document without pages is an error.
pub fn open_action(token: u64, generation: u64, reply: OpenReply, with_password: bool) -> (r: OpenAction)
    ensures
        token != generation ==> r == OpenAction::Ignore,
        token == generation ==> match reply {
            OpenReply::Opened(n) => if n == 0 {
                r matches OpenAction::ShowError { message } && message@ == no_pages_text()
            } else {
                r == (OpenAction::Show { page_count: n })
            },
            OpenReply::PasswordRequired => r matches OpenAction::AskPassword { status } && status@
                == unlock_status_text(with_password),
            OpenReply::Failed(m) => r matches OpenAction::ShowError { message } && message@ == m@,
        },
{
    if token != generation {
        return OpenAction::Ignore;
    }
    match reply {
        OpenReply::Opened(n) => {
            if n == 0 {
                OpenAction::ShowError { message: String::from_str("El PDF no contiene páginas.") }
            } else {
                OpenAction::Show { page_count: n }
            }
        },
        OpenReply::PasswordRequired => {
            let status = if with_password {
                String::from_str("La contraseña no es correcta. Inténtalo de nuevo.")
            } else {
                String::new()
            };
            proof {
                reveal_strlit("La contraseña no es correcta. Inténtalo de nuevo.");
            }
            OpenAction::AskPassword { status }
        },
        OpenReply::Failed(m) => OpenAction::ShowError { message: m },
    }
}

} // verus!
