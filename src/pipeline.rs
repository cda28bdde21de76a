//! Creation of records from templates: the text a template renders is read
//! back through the document codec, exactly as a file on disk would be.
use vstd::prelude::*;
use crate::codec::{split_document, split_spec, Frame, ParseError};
use crate::records::{path_of, DataId, FrontMatter, Timestamp, TodoData, TodoFile};
use crate::store::{id_set, next_id_of, Collection};

verus! {

/// Relies on chrono's `Utc::now`, read back through `DateTime::timestamp` and
/// `DateTime::timestamp_subsec_nanos`: the current time, which `Utc::now`
/// builds from the system clock's time since the epoch and its sub-second
/// nanoseconds.
#[verifier::external_body]
fn now_utc() -> (r: Timestamp)
    ensures
        r.secs >= 0,
        r.nanos < 1_000_000_000,
{
    let now = chrono::Utc::now();
    Timestamp { secs: now.timestamp(), nanos: now.timestamp_subsec_nanos() }
}

/// The values a template is rendered with.
#[derive(Clone, Debug)]
pub struct TemplateVars {
    pub id: DataId,
    pub created_at: Timestamp,
    pub tags: Vec<String>,
    pub title: Option<String>,
}

impl TemplateVars {
    /// The values for a record with identifier `id`, created now, with no
    /// tags and no title.
    pub fn new(id: DataId) -> (r: TemplateVars)
        ensures
            r.id == id,
            r.tags@.len() == 0,
            r.title is None,
            r.created_at.secs >= 0,
            r.created_at.nanos < 1_000_000_000,
    {
        TemplateVars { id, created_at: now_utc(), tags: Vec::new(), title: None }
    }
}

/// Whether a data root may be set up, given whether its `tasks` and
/// `templates` directories exist: only when neither does, so that an
/// existing store is never overwritten.
pub fn init_allowed(tasks_exists: bool, templates_exists: bool) -> (r: bool)
    ensures
        r == (!tasks_exists && !templates_exists),
{
    !tasks_exists && !templates_exists
}

/// Why a record could not be created from a template.
#[derive(Clone, Debug, PartialEq, Eq)]
pub enum PipelineError {
    /// The template engine failed; its message.
    Template(String),
    /// The template `name` rendered text that is no record document.
    InvalidTemplate { name: String, cause: ParseError },
}

/// The data root and the records loaded from it.
#[derive(Debug)]
pub struct CommandProcessor {
    pub data_dir: String,
    pub collection: Collection,
}

impl CommandProcessor {
    /// A processor for the data root `data_dir` holding `collection`.
    pub fn new(collection: Collection, data_dir: String) -> (r: CommandProcessor)
        ensures
            r.collection == collection,
            r.data_dir == data_dir,
    {
        CommandProcessor { data_dir, collection }
    }

    /// The identifier for the next record; `None` when the largest one in
    /// use has no successor.
    pub fn next_data_id(&self) -> (r: Option<DataId>)
        ensures
            r is Some <==> next_id_of(id_set(self.collection@)) <= DataId::MAX,
            r matches Some(n) ==> n == next_id_of(id_set(self.collection@)),
    {
        self.collection.next_id()
    }

    /// Splits what template `template` rendered. A failed rendering is a
    /// template error; rendered text that is not framed as a document is an
    /// invalid template, named.
    pub fn frame_rendered(&self, template: &str, rendered: Result<String, String>) -> (r: Result<
        Frame,
        PipelineError,
    >)
        ensures
            match rendered {
                Err(m) => r == Err::<Frame, PipelineError>(PipelineError::Template(m)),
                Ok(t) => match split_spec(t@) {
                    None => r matches Err(PipelineError::InvalidTemplate { name, cause })
                        && name@ == template@ && cause == ParseError::Format,
                    Some((front, body)) => r matches Ok(f) && f.front@ == front && f.body@
                        == body,
                },
            },
    {
        match rendered {
            Err(m) => Err(PipelineError::Template(m)),
            Ok(text) => match split_document(text.as_str()) {
                Ok(frame) => Ok(frame),
                Err(cause) => Err(PipelineError::InvalidTemplate { name: template.to_owned(), cause }),
            },
        }
    }

    /// The record created from what template `template` rendered, given its
    /// split text and the outcome of decoding the front-matter segment. The
    /// record's path derives from its identifier; a decoding failure is an
    /// invalid template, named, with the schema error.
    pub fn new_todo_from_template(
        &self,
        template: &str,
        frame: Frame,
        decoded: Result<FrontMatter, String>,
    ) -> (r: Result<TodoFile, PipelineError>)
        ensures
            match decoded {
                Ok(fm) => r matches Ok(file) && file.data.front_matter == fm && file.data.content@
                    == frame.body@ && file.path@ == path_of(fm.id),
                Err(m) => r matches Err(PipelineError::InvalidTemplate { name, cause })
                    && name@ == template@ && cause == ParseError::Schema(m),
            },
    {
        match TodoData::from_frame(frame, decoded) {
            Ok(data) => Ok(TodoFile::new_from_data(data)),
            Err(cause) => Err(PipelineError::InvalidTemplate { name: template.to_owned(), cause }),
        }
    }
}

} // verus!
