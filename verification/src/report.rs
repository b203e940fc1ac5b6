//! What a generation run reports.

use vstd::prelude::*;

verus! {

/// What went wrong in a run without ending it.
#[derive(Debug)]
pub enum GenerationWarning {
    SchemaConversionFailed { schema_name: String, error: String },
    OperationConversionFailed { method: String, path: String, error: String },
    OperationSpecific { operation_id: String, message: String },
}

/// The content of a [`GenerationWarning`].
pub enum GenerationWarningView {
    SchemaConversionFailed { schema_name: Seq<char>, error: Seq<char> },
    OperationConversionFailed { method: Seq<char>, path: Seq<char>, error: Seq<char> },
    OperationSpecific { operation_id: Seq<char>, message: Seq<char> },
}

impl View for GenerationWarning {
    type V = GenerationWarningView;

    open spec fn view(&self) -> GenerationWarningView {
        match self {
            GenerationWarning::SchemaConversionFailed {
                schema_name,
                error,
            } => GenerationWarningView::SchemaConversionFailed {
                schema_name: schema_name@,
                error: error@,
            },
            GenerationWarning::OperationConversionFailed {
                method,
                path,
                error,
            } => GenerationWarningView::OperationConversionFailed {
                method: method@,
                path: path@,
                error: error@,
            },
            GenerationWarning::OperationSpecific {
                operation_id,
                message,
            } => GenerationWarningView::OperationSpecific {
                operation_id: operation_id@,
                message: message@,
            },
        }
    }
}

impl GenerationWarningView {
    /// Whether the warning reports that something of the document was left out.
    pub open spec fn is_skipped_item(self) -> bool {
        self is SchemaConversionFailed || self is OperationConversionFailed
    }

    /// The warning in words.
    pub open spec fn text(self) -> Seq<char> {
        match self {
            GenerationWarningView::SchemaConversionFailed { schema_name, error } => {
                "Failed to convert schema '"@ + schema_name + "': "@ + error
            },
            GenerationWarningView::OperationConversionFailed { method, path, error } => {
                "Failed to convert operation '"@ + method + " "@ + path + "': "@ + error
            },
            GenerationWarningView::OperationSpecific { operation_id, message } => {
                "["@ + operation_id + "] "@ + message
            },
        }
    }
}

impl GenerationWarning {
    /// Whether the warning reports that something of the document was left out.
    pub fn is_skipped_item(&self) -> (skipped: bool)
        ensures
            skipped == self@.is_skipped_item(),
    {
        matches!(
            self,
            GenerationWarning::SchemaConversionFailed { .. }
                | GenerationWarning::OperationConversionFailed { .. }
        )
    }

    /// The warning in words.
    pub fn to_string(&self) -> (text: String)
        ensures
            text@ == self@.text(),
    {
        match self {
            GenerationWarning::SchemaConversionFailed { schema_name, error } => {
                let mut text = "Failed to convert schema '".to_owned();
                text.append(schema_name.as_str());
                text.append("': ");
                text.append(error.as_str());
                text
            },
            GenerationWarning::OperationConversionFailed { method, path, error } => {
                let mut text = "Failed to convert operation '".to_owned();
                text.append(method.as_str());
                text.append(" ");
                text.append(path.as_str());
                text.append("': ");
                text.append(error.as_str());
                text
            },
            GenerationWarning::OperationSpecific { operation_id, message } => {
                let mut text = "[".to_owned();
                text.append(operation_id.as_str());
                text.append("] ");
                text.append(message.as_str());
                text
            },
        }
    }
}

/// What a run generated, counted.
#[derive(Debug)]
pub struct GenerationStats {
    pub types_generated: usize,
    pub structs_generated: usize,
    pub enums_generated: usize,
    pub enums_with_helpers_generated: usize,
    pub type_aliases_generated: usize,
    pub operations_converted: usize,
    pub webhooks_converted: usize,
    pub cycles_detected: usize,
    pub cycle_details: Vec<Vec<String>>,
    pub warnings: Vec<GenerationWarning>,
    pub orphaned_schemas_count: usize,
    pub client_methods_generated: Option<usize>,
    pub client_headers_generated: Option<usize>,
}

/// The source files of a client module.
#[derive(Debug)]
pub struct ClientModOutput {
    pub types_code: String,
    pub client_code: String,
    pub mod_code: String,
    pub stats: GenerationStats,
}

} // verus!
