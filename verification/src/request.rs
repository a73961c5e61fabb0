//! What one filter call asks of the repository: which repository to open
//! and which commit to start from, read from the call's parameters.

use crate::binding::{argument, missing_message, resolve, supplies, BindMode, QueryBinding};
use crate::error::{ErrorKind, QueryError};
use crate::object_id::{is_object_name, name_bytes, ObjectId};
use crate::text::text_of;
use vstd::prelude::*;

verus! {

/// The commit that a walk or a comparison starts from.
#[derive(Clone, Copy, Debug, PartialEq, Eq)]
pub enum Start {
    /// The repository's current head.
    Head,
    /// The commit of this name.
    Commit(ObjectId),
}

impl Start {
    /// The name of the commit to start from, absent for the head.
    pub open spec fn name(self) -> Option<Seq<u8>> {
        match self {
            Start::Head => None,
            Start::Commit(id) => Some(id@),
        }
    }
}

/// The parameters of a filter call as they were bound, with what they ask
/// of the repository.
#[derive(Clone, Debug, PartialEq, Eq)]
pub struct Request {
    /// The parameters as the engine gave them; rows echo them back.
    pub binding: QueryBinding,
    /// The path of the repository to open.
    pub repository: String,
    /// The commit to start from.
    pub start: Start,
}

/// A request, its texts as characters and its start as bytes.
pub struct RequestView {
    pub mode: BindMode,
    pub bound_repository: Option<Seq<char>>,
    pub bound_revision: Option<Seq<char>>,
    pub repository: Seq<char>,
    pub start: Option<Seq<u8>>,
}

impl View for Request {
    type V = RequestView;

    open spec fn view(&self) -> RequestView {
        RequestView {
            mode: self.binding.mode,
            bound_repository: text_of(self.binding.repository),
            bound_revision: text_of(self.binding.revision),
            repository: self.repository@,
            start: self.start.name(),
        }
    }
}

/// The repository that is opened where none is bound: the one around the
/// current directory.
pub open spec fn default_repository() -> Seq<char> {
    seq!['.']
}

/// Whether a revision that was bound can name a commit.
pub open spec fn revision_names_commit(revision: Option<Seq<char>>) -> bool {
    revision matches Some(text) ==> is_object_name(text)
}

/// What parameters bound under `mode` ask for: the bound repository or else
/// the default one, from the bound revision or else the head.
pub open spec fn request_of(
    mode: BindMode,
    repository: Option<Seq<char>>,
    revision: Option<Seq<char>>,
) -> RequestView {
    RequestView {
        mode,
        bound_repository: repository,
        bound_revision: revision,
        repository: match repository {
            Some(path) => path,
            None => default_repository(),
        },
        start: match revision {
            Some(text) => Some(name_bytes(text)),
            None => None,
        },
    }
}

impl QueryBinding {
    /// Works out what the bound parameters ask for. A revision that is no
    /// object name does not resolve.
    pub fn into_request(self) -> (r: Result<Request, QueryError>)
        ensures
            r is Ok <==> revision_names_commit(text_of(self.revision)),
            r matches Ok(request) ==> request@ == request_of(
                self.mode,
                text_of(self.repository),
                text_of(self.revision),
            ),
            r matches Err(e) ==> e.kind == ErrorKind::RevisionResolution,
    {
        let start = match &self.revision {
            Some(text) => {
                match ObjectId::parse(text.as_str()) {
                    Ok(id) => Start::Commit(id),
                    Err(e) => {
                        return Err(e);
                    },
                }
            },
            None => Start::Head,
        };
        let repository = match &self.repository {
            Some(path) => path.clone(),
            None => {
                proof {
                    reveal_strlit(".");
                    assert("."@ =~= default_repository());
                }
                ".".to_owned()
            },
        };
        Ok(Request { binding: self, repository, start })
    }
}

/// Reads a filter call: the parameters that `mode` names are taken from
/// their slots, and turned into what they ask of the repository. A
/// parameter that is missing is a binding error; a revision that is no
/// object name does not resolve.
pub fn prepare(mode: BindMode, values: &Vec<Option<String>>) -> (r: Result<Request, QueryError>)
    ensures
        r is Ok <==> supplies(values@, mode) && revision_names_commit(
            argument(values@, mode.revision_slot()),
        ),
        r matches Ok(request) ==> request@ == request_of(
            mode,
            argument(values@, mode.repository_slot()),
            argument(values@, mode.revision_slot()),
        ),
        r matches Err(e) ==> e.kind == if supplies(values@, mode) {
            ErrorKind::RevisionResolution
        } else {
            ErrorKind::ConstraintBinding
        },
        r matches Err(e) ==> !supplies(values@, mode) ==> e.message@ == missing_message(
            values@,
            mode,
        ),
{
    match resolve(mode, values) {
        Ok(binding) => binding.into_request(),
        Err(e) => Err(e),
    }
}

} // verus!
