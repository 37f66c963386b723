//! The notebook domain: documents, cells, outputs and runtime
//! sessions, together with the projection state they live in.

use vstd::prelude::*;

use crate::value::{Value, ValueV};

verus! {

/// Cell types supported in the document engine.
#[derive(Debug, Clone, Copy, PartialEq, Eq, Structural)]
pub enum CellType {
    Code,
    Markdown,
    Sql,
    Ai,
    Raw,
}

/// Execution states for cells.
#[derive(Debug, Clone, Copy, PartialEq, Eq, Structural)]
pub enum ExecutionState {
    Idle,
    Queued,
    Running,
    Completed,
    Error,
}

impl Default for ExecutionState {
    fn default() -> (r: Self)
        ensures
            r == ExecutionState::Idle,
    {
        ExecutionState::Idle
    }
}

/// Output types of a cell.
#[derive(Debug, Clone, Copy, PartialEq, Eq, Structural)]
pub enum OutputType {
    MultimediaDisplay,
    MultimediaResult,
    Terminal,
    Markdown,
    Error,
}

/// Lifecycle states of a runtime session.
#[derive(Debug, Clone, Copy, PartialEq, Eq, Structural)]
pub enum RuntimeStatus {
    Starting,
    Ready,
    Busy,
    Restarting,
    Terminated,
}

/// Kernel specification for code execution.
#[derive(Debug)]
pub struct KernelSpec {
    pub name: String,
    pub display_name: String,
    pub language: String,
}

/// The mathematical shape of a kernel specification.
#[verifier::ext_equal]
pub struct KernelSpecV {
    pub name: Seq<char>,
    pub display_name: Seq<char>,
    pub language: Seq<char>,
}

impl View for KernelSpec {
    type V = KernelSpecV;

    open spec fn view(&self) -> KernelSpecV {
        KernelSpecV { name: self.name@, display_name: self.display_name@, language: self.language@ }
    }
}

impl DeepView for KernelSpec {
    type V = KernelSpecV;

    open spec fn deep_view(&self) -> KernelSpecV {
        self.view()
    }
}

impl Clone for KernelSpec {
    fn clone(&self) -> (res: Self)
        ensures
            res@ == self@,
    {
        KernelSpec {
            name: self.name.clone(),
            display_name: self.display_name.clone(),
            language: self.language.clone(),
        }
    }
}

/// Language-specific information.
#[derive(Debug)]
pub struct LanguageInfo {
    pub name: String,
    pub version: String,
    pub mimetype: Option<String>,
    pub file_extension: Option<String>,
}

/// The mathematical shape of language information.
#[verifier::ext_equal]
pub struct LanguageInfoV {
    pub name: Seq<char>,
    pub version: Seq<char>,
    pub mimetype: Option<Seq<char>>,
    pub file_extension: Option<Seq<char>>,
}

impl View for LanguageInfo {
    type V = LanguageInfoV;

    open spec fn view(&self) -> LanguageInfoV {
        LanguageInfoV {
            name: self.name@,
            version: self.version@,
            mimetype: self.mimetype.deep_view(),
            file_extension: self.file_extension.deep_view(),
        }
    }
}

impl DeepView for LanguageInfo {
    type V = LanguageInfoV;

    open spec fn deep_view(&self) -> LanguageInfoV {
        self.view()
    }
}

impl Clone for LanguageInfo {
    fn clone(&self) -> (res: Self)
        ensures
            res@ == self@,
    {
        LanguageInfo {
            name: self.name.clone(),
            version: self.version.clone(),
            mimetype: self.mimetype.clone(),
            file_extension: self.file_extension.clone(),
        }
    }
}

/// One key/value pair of the free-form metadata mapping.
#[derive(Debug)]
pub struct MetaEntry {
    pub key: String,
    pub value: String,
}

/// The mathematical shape of a metadata pair.
#[verifier::ext_equal]
pub struct MetaEntryV {
    pub key: Seq<char>,
    pub value: Seq<char>,
}

impl View for MetaEntry {
    type V = MetaEntryV;

    open spec fn view(&self) -> MetaEntryV {
        MetaEntryV { key: self.key@, value: self.value@ }
    }
}

impl DeepView for MetaEntry {
    type V = MetaEntryV;

    open spec fn deep_view(&self) -> MetaEntryV {
        self.view()
    }
}

impl Clone for MetaEntry {
    fn clone(&self) -> (res: Self)
        ensures
            res@ == self@,
    {
        MetaEntry { key: self.key.clone(), value: self.value.clone() }
    }
}

/// Document metadata: kernel, language, authorship and free-form tags.
#[derive(Debug)]
pub struct DocumentMetadata {
    pub kernel_spec: Option<KernelSpec>,
    pub language_info: Option<LanguageInfo>,
    pub authors: Vec<String>,
    pub tags: Vec<String>,
    pub custom: Vec<MetaEntry>,
}

/// The mathematical shape of document metadata.
#[verifier::ext_equal]
pub struct DocumentMetadataV {
    pub kernel_spec: Option<KernelSpecV>,
    pub language_info: Option<LanguageInfoV>,
    pub authors: Seq<Seq<char>>,
    pub tags: Seq<Seq<char>>,
    pub custom: Seq<MetaEntryV>,
}

impl DocumentMetadataV {
    /// Metadata with nothing set.
    pub open spec fn empty() -> DocumentMetadataV {
        DocumentMetadataV {
            kernel_spec: None,
            language_info: None,
            authors: Seq::empty(),
            tags: Seq::empty(),
            custom: Seq::empty(),
        }
    }
}

impl View for DocumentMetadata {
    type V = DocumentMetadataV;

    open spec fn view(&self) -> DocumentMetadataV {
        DocumentMetadataV {
            kernel_spec: self.kernel_spec.deep_view(),
            language_info: self.language_info.deep_view(),
            authors: self.authors.deep_view(),
            tags: self.tags.deep_view(),
            custom: self.custom.deep_view(),
        }
    }
}

impl DeepView for DocumentMetadata {
    type V = DocumentMetadataV;

    open spec fn deep_view(&self) -> DocumentMetadataV {
        self.view()
    }
}

impl Clone for DocumentMetadata {
    fn clone(&self) -> (res: Self)
        ensures
            res@ == self@,
    {
        let res = DocumentMetadata {
            kernel_spec: self.kernel_spec.clone(),
            language_info: self.language_info.clone(),
            authors: self.authors.clone(),
            tags: self.tags.clone(),
            custom: self.custom.clone(),
        };
        proof {
            assert(res.authors.deep_view() =~= self.authors.deep_view());
            assert(res.tags.deep_view() =~= self.tags.deep_view());
            assert(res.custom.deep_view() =~= self.custom.deep_view());
            assert(res@ =~= self@);
        }
        res
    }
}

impl Default for DocumentMetadata {
    fn default() -> (r: Self)
        ensures
            r@ == DocumentMetadataV::empty(),
    {
        let r = DocumentMetadata {
            kernel_spec: None,
            language_info: None,
            authors: Vec::new(),
            tags: Vec::new(),
            custom: Vec::new(),
        };
        proof {
            assert(r@ =~= DocumentMetadataV::empty());
        }
        r
    }
}

/// A document: a titled collection of cells.
#[derive(Debug)]
pub struct Document {
    pub id: String,
    pub title: String,
    pub metadata: DocumentMetadata,
    pub created_at: i64,
    pub updated_at: i64,
}

/// The mathematical shape of a document.
#[verifier::ext_equal]
pub struct DocumentV {
    pub id: Seq<char>,
    pub title: Seq<char>,
    pub metadata: DocumentMetadataV,
    pub created_at: i64,
    pub updated_at: i64,
}

impl View for Document {
    type V = DocumentV;

    open spec fn view(&self) -> DocumentV {
        DocumentV {
            id: self.id@,
            title: self.title@,
            metadata: self.metadata@,
            created_at: self.created_at,
            updated_at: self.updated_at,
        }
    }
}

impl DeepView for Document {
    type V = DocumentV;

    open spec fn deep_view(&self) -> DocumentV {
        self.view()
    }
}

impl Clone for Document {
    fn clone(&self) -> (res: Self)
        ensures
            res@ == self@,
    {
        let res = Document {
            id: self.id.clone(),
            title: self.title.clone(),
            metadata: self.metadata.clone(),
            created_at: self.created_at,
            updated_at: self.updated_at,
        };
        proof {
            assert(res@ =~= self@);
        }
        res
    }
}

/// A cell of a document.
#[derive(Debug)]
pub struct Cell {
    pub id: String,
    pub cell_type: CellType,
    pub source: String,
    pub fractional_index: Option<String>,
    pub execution_count: Option<u64>,
    pub execution_state: ExecutionState,
    pub assigned_runtime_session: Option<String>,
    pub last_execution_duration_ms: Option<u64>,
    pub sql_connection_id: Option<String>,
    pub sql_result_variable: Option<String>,
    pub ai_provider: Option<String>,
    pub ai_model: Option<String>,
    pub ai_settings: Option<Value>,
    pub source_visible: bool,
    pub output_visible: bool,
    pub ai_context_visible: bool,
    pub created_by: String,
    pub document_id: String,
    pub created_at: i64,
    pub updated_at: i64,
}

/// The mathematical shape of a cell.
#[verifier::ext_equal]
pub struct CellV {
    pub id: Seq<char>,
    pub cell_type: CellType,
    pub source: Seq<char>,
    pub fractional_index: Option<Seq<char>>,
    pub execution_count: Option<u64>,
    pub execution_state: ExecutionState,
    pub assigned_runtime_session: Option<Seq<char>>,
    pub last_execution_duration_ms: Option<u64>,
    pub sql_connection_id: Option<Seq<char>>,
    pub sql_result_variable: Option<Seq<char>>,
    pub ai_provider: Option<Seq<char>>,
    pub ai_model: Option<Seq<char>>,
    pub ai_settings: Option<ValueV>,
    pub source_visible: bool,
    pub output_visible: bool,
    pub ai_context_visible: bool,
    pub created_by: Seq<char>,
    pub document_id: Seq<char>,
    pub created_at: i64,
    pub updated_at: i64,
}

impl View for Cell {
    type V = CellV;

    open spec fn view(&self) -> CellV {
        CellV {
            id: self.id@,
            cell_type: self.cell_type,
            source: self.source@,
            fractional_index: self.fractional_index.deep_view(),
            execution_count: self.execution_count,
            execution_state: self.execution_state,
            assigned_runtime_session: self.assigned_runtime_session.deep_view(),
            last_execution_duration_ms: self.last_execution_duration_ms,
            sql_connection_id: self.sql_connection_id.deep_view(),
            sql_result_variable: self.sql_result_variable.deep_view(),
            ai_provider: self.ai_provider.deep_view(),
            ai_model: self.ai_model.deep_view(),
            ai_settings: self.ai_settings.deep_view(),
            source_visible: self.source_visible,
            output_visible: self.output_visible,
            ai_context_visible: self.ai_context_visible,
            created_by: self.created_by@,
            document_id: self.document_id@,
            created_at: self.created_at,
            updated_at: self.updated_at,
        }
    }
}

impl DeepView for Cell {
    type V = CellV;

    open spec fn deep_view(&self) -> CellV {
        self.view()
    }
}

impl Clone for Cell {
    fn clone(&self) -> (res: Self)
        ensures
            res@ == self@,
    {
        let res = Cell {
            id: self.id.clone(),
            cell_type: self.cell_type,
            source: self.source.clone(),
            fractional_index: self.fractional_index.clone(),
            execution_count: self.execution_count,
            execution_state: self.execution_state,
            assigned_runtime_session: self.assigned_runtime_session.clone(),
            last_execution_duration_ms: self.last_execution_duration_ms,
            sql_connection_id: self.sql_connection_id.clone(),
            sql_result_variable: self.sql_result_variable.clone(),
            ai_provider: self.ai_provider.clone(),
            ai_model: self.ai_model.clone(),
            ai_settings: self.ai_settings.clone(),
            source_visible: self.source_visible,
            output_visible: self.output_visible,
            ai_context_visible: self.ai_context_visible,
            created_by: self.created_by.clone(),
            document_id: self.document_id.clone(),
            created_at: self.created_at,
            updated_at: self.updated_at,
        };
        proof {
            assert(res@ =~= self@);
        }
        res
    }
}

/// Media representation of an output: inline data, or a reference to a
/// stored artifact.
#[derive(Debug)]
pub enum MediaRepresentation {
    Inline { data: Value, metadata: Option<Value> },
    Artifact { artifact_id: String, metadata: Option<Value> },
}

/// The mathematical shape of a media representation.
#[verifier::ext_equal]
pub enum MediaRepresentationV {
    Inline { data: ValueV, metadata: Option<ValueV> },
    Artifact { artifact_id: Seq<char>, metadata: Option<ValueV> },
}

impl View for MediaRepresentation {
    type V = MediaRepresentationV;

    open spec fn view(&self) -> MediaRepresentationV {
        match self {
            MediaRepresentation::Inline { data, metadata } => MediaRepresentationV::Inline {
                data: data@,
                metadata: metadata.deep_view(),
            },
            MediaRepresentation::Artifact { artifact_id, metadata } => {
                MediaRepresentationV::Artifact {
                    artifact_id: artifact_id@,
                    metadata: metadata.deep_view(),
                }
            },
        }
    }
}

impl DeepView for MediaRepresentation {
    type V = MediaRepresentationV;

    open spec fn deep_view(&self) -> MediaRepresentationV {
        self.view()
    }
}

impl Clone for MediaRepresentation {
    fn clone(&self) -> (res: Self)
        ensures
            res@ == self@,
    {
        match self {
            MediaRepresentation::Inline { data, metadata } => MediaRepresentation::Inline {
                data: data.clone(),
                metadata: metadata.clone(),
            },
            MediaRepresentation::Artifact { artifact_id, metadata } => {
                MediaRepresentation::Artifact {
                    artifact_id: artifact_id.clone(),
                    metadata: metadata.clone(),
                }
            },
        }
    }
}

/// One media-key/representation pair of an output.
#[derive(Debug)]
pub struct RepEntry {
    pub key: String,
    pub rep: MediaRepresentation,
}

/// The mathematical shape of a representation entry.
#[verifier::ext_equal]
pub struct RepEntryV {
    pub key: Seq<char>,
    pub rep: MediaRepresentationV,
}

impl View for RepEntry {
    type V = RepEntryV;

    open spec fn view(&self) -> RepEntryV {
        RepEntryV { key: self.key@, rep: self.rep@ }
    }
}

impl DeepView for RepEntry {
    type V = RepEntryV;

    open spec fn deep_view(&self) -> RepEntryV {
        self.view()
    }
}

impl Clone for RepEntry {
    fn clone(&self) -> (res: Self)
        ensures
            res@ == self@,
    {
        RepEntry { key: self.key.clone(), rep: self.rep.clone() }
    }
}

/// An output a cell produced. Positions are integer ranks.
#[derive(Debug)]
pub struct CellOutput {
    pub id: String,
    pub cell_id: String,
    pub output_type: OutputType,
    pub position: i64,
    pub stream_name: Option<String>,
    pub execution_count: Option<u64>,
    pub display_id: Option<String>,
    pub data: Option<String>,
    pub artifact_id: Option<String>,
    pub mime_type: Option<String>,
    pub metadata: Option<Value>,
    pub representations: Option<Vec<RepEntry>>,
    pub created_at: i64,
}

/// The mathematical shape of a cell output.
#[verifier::ext_equal]
pub struct CellOutputV {
    pub id: Seq<char>,
    pub cell_id: Seq<char>,
    pub output_type: OutputType,
    pub position: i64,
    pub stream_name: Option<Seq<char>>,
    pub execution_count: Option<u64>,
    pub display_id: Option<Seq<char>>,
    pub data: Option<Seq<char>>,
    pub artifact_id: Option<Seq<char>>,
    pub mime_type: Option<Seq<char>>,
    pub metadata: Option<ValueV>,
    pub representations: Option<Seq<RepEntryV>>,
    pub created_at: i64,
}

impl View for CellOutput {
    type V = CellOutputV;

    open spec fn view(&self) -> CellOutputV {
        CellOutputV {
            id: self.id@,
            cell_id: self.cell_id@,
            output_type: self.output_type,
            position: self.position,
            stream_name: self.stream_name.deep_view(),
            execution_count: self.execution_count,
            display_id: self.display_id.deep_view(),
            data: self.data.deep_view(),
            artifact_id: self.artifact_id.deep_view(),
            mime_type: self.mime_type.deep_view(),
            metadata: self.metadata.deep_view(),
            representations: self.representations.deep_view(),
            created_at: self.created_at,
        }
    }
}

impl DeepView for CellOutput {
    type V = CellOutputV;

    open spec fn deep_view(&self) -> CellOutputV {
        self.view()
    }
}

impl Clone for CellOutput {
    fn clone(&self) -> (res: Self)
        ensures
            res@ == self@,
    {
        let res = CellOutput {
            id: self.id.clone(),
            cell_id: self.cell_id.clone(),
            output_type: self.output_type,
            position: self.position,
            stream_name: self.stream_name.clone(),
            execution_count: self.execution_count,
            display_id: self.display_id.clone(),
            data: self.data.clone(),
            artifact_id: self.artifact_id.clone(),
            mime_type: self.mime_type.clone(),
            metadata: self.metadata.clone(),
            representations: self.representations.clone(),
            created_at: self.created_at,
        };
        proof {
            if self.representations is Some && res.representations is Some {
                assert(res.representations.unwrap().deep_view()
                    =~= self.representations.unwrap().deep_view());
            }
            assert(res@ =~= self@);
        }
        res
    }
}

/// A runtime session available for execution.
#[derive(Debug)]
pub struct RuntimeSession {
    pub session_id: String,
    pub runtime_id: String,
    pub runtime_type: String,
    pub status: RuntimeStatus,
    pub is_active: bool,
    pub can_execute_code: bool,
    pub can_execute_sql: bool,
    pub can_execute_ai: bool,
    pub available_ai_models: Option<Vec<String>>,
    pub last_renewed_at: Option<i64>,
    pub expires_at: Option<i64>,
}

/// The mathematical shape of a runtime session.
#[verifier::ext_equal]
pub struct RuntimeSessionV {
    pub session_id: Seq<char>,
    pub runtime_id: Seq<char>,
    pub runtime_type: Seq<char>,
    pub status: RuntimeStatus,
    pub is_active: bool,
    pub can_execute_code: bool,
    pub can_execute_sql: bool,
    pub can_execute_ai: bool,
    pub available_ai_models: Option<Seq<Seq<char>>>,
    pub last_renewed_at: Option<i64>,
    pub expires_at: Option<i64>,
}

impl View for RuntimeSession {
    type V = RuntimeSessionV;

    open spec fn view(&self) -> RuntimeSessionV {
        RuntimeSessionV {
            session_id: self.session_id@,
            runtime_id: self.runtime_id@,
            runtime_type: self.runtime_type@,
            status: self.status,
            is_active: self.is_active,
            can_execute_code: self.can_execute_code,
            can_execute_sql: self.can_execute_sql,
            can_execute_ai: self.can_execute_ai,
            available_ai_models: self.available_ai_models.deep_view(),
            last_renewed_at: self.last_renewed_at,
            expires_at: self.expires_at,
        }
    }
}

impl DeepView for RuntimeSession {
    type V = RuntimeSessionV;

    open spec fn deep_view(&self) -> RuntimeSessionV {
        self.view()
    }
}

impl Clone for RuntimeSession {
    fn clone(&self) -> (res: Self)
        ensures
            res@ == self@,
    {
        let res = RuntimeSession {
            session_id: self.session_id.clone(),
            runtime_id: self.runtime_id.clone(),
            runtime_type: self.runtime_type.clone(),
            status: self.status,
            is_active: self.is_active,
            can_execute_code: self.can_execute_code,
            can_execute_sql: self.can_execute_sql,
            can_execute_ai: self.can_execute_ai,
            available_ai_models: self.available_ai_models.clone(),
            last_renewed_at: self.last_renewed_at,
            expires_at: self.expires_at,
        };
        proof {
            if self.available_ai_models is Some && res.available_ai_models is Some {
                assert(res.available_ai_models.unwrap().deep_view()
                    =~= self.available_ai_models.unwrap().deep_view());
            }
            assert(res@ =~= self@);
        }
        res
    }
}

/// The materialized state of the notebook projection.
#[derive(Debug)]
pub struct DocumentProjectionState {
    pub documents: Vec<Document>,
    pub cells: Vec<Cell>,
    pub outputs: Vec<CellOutput>,
    pub runtime_sessions: Vec<RuntimeSession>,
    pub last_processed_timestamp: i64,
    pub last_processed_version: i64,
}

/// The mathematical shape of the projection state.
#[verifier::ext_equal]
pub struct StateV {
    pub documents: Seq<DocumentV>,
    pub cells: Seq<CellV>,
    pub outputs: Seq<CellOutputV>,
    pub runtime_sessions: Seq<RuntimeSessionV>,
    pub last_processed_timestamp: i64,
    pub last_processed_version: i64,
}

impl StateV {
    /// The state before any event was applied.
    pub open spec fn initial() -> StateV {
        StateV {
            documents: Seq::empty(),
            cells: Seq::empty(),
            outputs: Seq::empty(),
            runtime_sessions: Seq::empty(),
            last_processed_timestamp: 0,
            last_processed_version: 0,
        }
    }
}

impl View for DocumentProjectionState {
    type V = StateV;

    open spec fn view(&self) -> StateV {
        StateV {
            documents: self.documents.deep_view(),
            cells: self.cells.deep_view(),
            outputs: self.outputs.deep_view(),
            runtime_sessions: self.runtime_sessions.deep_view(),
            last_processed_timestamp: self.last_processed_timestamp,
            last_processed_version: self.last_processed_version,
        }
    }
}

impl DeepView for DocumentProjectionState {
    type V = StateV;

    open spec fn deep_view(&self) -> StateV {
        self.view()
    }
}

impl Clone for DocumentProjectionState {
    fn clone(&self) -> (res: Self)
        ensures
            res@ == self@,
    {
        let res = DocumentProjectionState {
            documents: self.documents.clone(),
            cells: self.cells.clone(),
            outputs: self.outputs.clone(),
            runtime_sessions: self.runtime_sessions.clone(),
            last_processed_timestamp: self.last_processed_timestamp,
            last_processed_version: self.last_processed_version,
        };
        proof {
            assert(res.documents.deep_view() =~= self.documents.deep_view());
            assert(res.cells.deep_view() =~= self.cells.deep_view());
            assert(res.outputs.deep_view() =~= self.outputs.deep_view());
            assert(res.runtime_sessions.deep_view() =~= self.runtime_sessions.deep_view());
            assert(res@ =~= self@);
        }
        res
    }
}

impl Default for DocumentProjectionState {
    fn default() -> (r: Self)
        ensures
            r@ == StateV::initial(),
    {
        let r = DocumentProjectionState {
            documents: Vec::new(),
            cells: Vec::new(),
            outputs: Vec::new(),
            runtime_sessions: Vec::new(),
            last_processed_timestamp: 0,
            last_processed_version: 0,
        };
        proof {
            assert(r@ =~= StateV::initial());
        }
        r
    }
}

} // verus!
