//! What is read of an OpenAPI document.

use oas3::spec::{Info, Operation, PathItem, Server};
use oas3::Spec;
use std::rc::Rc;
use vstd::prelude::*;

verus! {

/// An OpenAPI document.
#[verifier::external_type_specification]
#[verifier::external_body]
pub struct ExSpec(oas3::Spec);

/// The operations available on one path of a document.
#[verifier::external_type_specification]
#[verifier::external_body]
pub struct ExPathItem(oas3::spec::PathItem);

/// One operation of a document.
#[verifier::external_type_specification]
#[verifier::external_body]
pub struct ExOperation(oas3::spec::Operation);

/// What a document says of its API.
#[verifier::external_type_specification]
#[verifier::external_body]
pub struct ExInfo(oas3::spec::Info);

/// A server of an API.
#[verifier::external_type_specification]
#[verifier::external_body]
pub struct ExServer(oas3::spec::Server);

/// An operation together with the method under which its path item holds it.
#[derive(Debug, Clone)]
pub struct PathOperation {
    pub method: String,
    pub operation_id: Option<String>,
    pub operation: Rc<Operation>,
}

/// The content of a [`PathOperation`].
pub struct PathOperationView {
    pub method: Seq<char>,
    pub operation_id: Option<Seq<char>>,
    pub operation: Operation,
}

impl View for PathOperation {
    type V = PathOperationView;

    open spec fn view(&self) -> PathOperationView {
        PathOperationView {
            method: self.method@,
            operation_id: match self.operation_id {
                Some(id) => Some(id@),
                None => None,
            },
            operation: *self.operation,
        }
    }
}

/// The operations that a document holds under its paths, each with its path.
pub uninterp spec fn path_operations(spec: Spec) -> Seq<(Seq<char>, PathOperationView)>;

/// The webhooks that a document holds, each with its name and its operations.
pub uninterp spec fn webhook_items(spec: Spec) -> Seq<(Seq<char>, Seq<PathOperationView>)>;

/// The operations that a path item holds.
pub uninterp spec fn item_operations(item: PathItem) -> Seq<PathOperationView>;

/// The title that a document gives to its API.
pub uninterp spec fn document_title(spec: Spec) -> Seq<char>;

/// What a document says of its API.
pub uninterp spec fn document_info(spec: Spec) -> Info;

/// The servers that a document lists.
pub uninterp spec fn document_servers(spec: Spec) -> Seq<Server>;

/// `Spec::clone` copies the whole document.
pub assume_specification[ <Spec as Clone>::clone ](spec: &Spec) -> (copy: Spec)
    ensures
        copy == *spec,
;

/// `Spec::operations` lists the operations under the document's paths, each with its path and
/// with its method, which `Method::as_str` turns into text. The list depends on the document
/// alone; its order is not stated.
#[verifier::external_body]
pub(crate) fn spec_operations(spec: &Spec) -> (operations: Vec<(String, PathOperation)>)
    ensures
        operations@.map_values(|o: (String, PathOperation)| (o.0@, o.1@)) == path_operations(*spec),
{
    spec.operations()
        .map(|(path, method, operation)| (path, PathOperation {
            method: method.as_str().to_owned(),
            operation_id: operation.operation_id.clone(),
            operation: Rc::new(operation.clone()),
        }))
        .collect()
}

/// `Spec::webhooks` is a map from webhook names to path items; `Map::iter` walks it in the
/// document's order. The walk depends on the document alone.
#[verifier::external_body]
pub(crate) fn spec_webhooks(spec: &Spec) -> (webhooks: Vec<(String, PathItem)>)
    ensures
        webhooks@.map_values(|w: (String, PathItem)| (w.0@, item_operations(w.1)))
            == webhook_items(*spec),
{
    spec.webhooks.iter().map(|(name, item)| (name.clone(), item.clone())).collect()
}

/// `PathItem::methods` lists the operations that a path item provides, each with its method,
/// which `Method::as_str` turns into text. The list depends on the path item alone.
#[verifier::external_body]
pub(crate) fn path_item_methods(item: &PathItem) -> (operations: Vec<PathOperation>)
    ensures
        operations@.map_values(|o: PathOperation| o@) == item_operations(*item),
{
    item.methods()
        .into_iter()
        .map(|(method, operation)| PathOperation {
            method: method.as_str().to_owned(),
            operation_id: operation.operation_id.clone(),
            operation: Rc::new(operation.clone()),
        })
        .collect()
}

/// The field `title` of the field `info` of a `Spec`.
#[verifier::external_body]
pub(crate) fn spec_title(spec: &Spec) -> (title: String)
    ensures
        title@ == document_title(*spec),
{
    spec.info.title.clone()
}

/// The field `info` of a `Spec`.
#[verifier::external_body]
pub(crate) fn spec_info(spec: &Spec) -> (info: &Info)
    ensures
        *info == document_info(*spec),
{
    &spec.info
}

/// The field `servers` of a `Spec`.
#[verifier::external_body]
pub(crate) fn spec_servers(spec: &Spec) -> (servers: &Vec<Server>)
    ensures
        servers@ == document_servers(*spec),
{
    &spec.servers
}

} // verus!
