//! Reading the tables and lists of the document through `kuchiki`'s node tree.
use crate::parser::{
    entity_parsed, list_parsed, parse_lists, parse_tables, tables_error, Cell, List, ParseError,
    Row, Sibling, Table,
};
use crate::text::eq_str;
use crate::types::{FieldType, TelegramTypeOrMethod};
use kuchiki::NodeRef;
use vstd::prelude::*;

verus! {

#[verifier::external_type_specification]
#[verifier::external_body]
pub struct ExNodeRef(NodeRef);

/// Relies on `NodeRef::select`: the elements under `node` that match `selector`, in
/// document order; `None` where the selector does not parse.
#[verifier::external_body]
fn select_nodes(node: &NodeRef, selector: &str) -> Option<Vec<NodeRef>> {
    node.select(selector).ok().map(|found| found.map(|e| e.as_node().clone()).collect())
}

/// Relies on `NodeRef::preceding_siblings`: the nodes before `node`, nearest first.
#[verifier::external_body]
fn preceding_siblings(node: &NodeRef) -> Vec<NodeRef> {
    node.preceding_siblings().collect()
}

/// Relies on `NodeRef::children`: the children of `node`, in order.
#[verifier::external_body]
fn children(node: &NodeRef) -> Vec<NodeRef> {
    node.children().collect()
}

/// Relies on `Node::as_element`: the tag name of an element node.
#[verifier::external_body]
fn element_name(node: &NodeRef) -> Option<String> {
    node.as_element().map(|e| e.name.local.to_string())
}

/// Relies on `Node::as_text`: the text of a text node.
#[verifier::external_body]
fn text_node(node: &NodeRef) -> Option<String> {
    node.as_text().map(|t| t.borrow().clone())
}

/// Relies on `NodeRef::text_contents`: the text nodes under `node`, concatenated.
#[verifier::external_body]
fn text_contents(node: &NodeRef) -> String {
    node.text_contents()
}

/// Relies on `Node::first_child`.
#[verifier::external_body]
fn first_child(node: &NodeRef) -> Option<NodeRef> {
    node.first_child()
}

/// Relies on `Node::last_child`.
#[verifier::external_body]
fn last_child(node: &NodeRef) -> Option<NodeRef> {
    node.last_child()
}

/// Relies on `NodeRef`'s `ToString`: the node serialised as HTML.
#[verifier::external_body]
fn serialized(node: &NodeRef) -> String {
    node.to_string()
}

fn sibling_of(node: &NodeRef) -> Sibling {
    let last_text = match last_child(node) {
        Some(c) => text_node(&c),
        None => None,
    };
    Sibling { tag: element_name(node), text: text_contents(node), last_text }
}

fn siblings_before(node: &NodeRef) -> Vec<Sibling> {
    let nodes = preceding_siblings(node);
    let mut out: Vec<Sibling> = Vec::new();
    let mut i: usize = 0;
    while i < nodes.len()
        decreases nodes.len() - i,
    {
        out.push(sibling_of(&nodes[i]));
        i += 1;
    }
    out
}

/// Whether `node` is an element with tag name `tag`.
fn is_element(node: &NodeRef, tag: &str) -> bool {
    match element_name(node) {
        Some(name) => eq_str(name.as_str(), tag),
        None => false,
    }
}

/// The `td` children of a table row.
fn row_of(tr: &NodeRef) -> Row {
    let nodes = children(tr);
    let mut cells: Vec<Cell> = Vec::new();
    let mut i: usize = 0;
    while i < nodes.len()
        decreases nodes.len() - i,
    {
        let td = &nodes[i];
        if is_element(td, "td") {
            let first_text = match first_child(td) {
                Some(c) => text_node(&c),
                None => None,
            };
            cells.push(Cell { first_text, text: text_contents(td) });
        }
        i += 1;
    }
    Row { cells }
}

fn table_of(node: &NodeRef) -> Option<Table> {
    let trs = select_nodes(node, "tr")?;
    let mut rows: Vec<Row> = Vec::new();
    let mut i: usize = 0;
    while i < trs.len()
        decreases trs.len() - i,
    {
        rows.push(row_of(&trs[i]));
        i += 1;
    }
    Some(Table { preceding: siblings_before(node), rows })
}

/// The first text of a list item: the first child of its first child.
fn item_text(li: &NodeRef) -> Option<String> {
    let first = first_child(li)?;
    let inner = first_child(&first)?;
    Some(serialized(&inner))
}

fn list_of(node: &NodeRef) -> Option<List> {
    let lis = select_nodes(node, "li")?;
    let mut items: Vec<String> = Vec::new();
    let mut i: usize = 0;
    while i < lis.len()
        decreases lis.len() - i,
    {
        items.push(item_text(&lis[i])?);
        i += 1;
    }
    Some(List { preceding: siblings_before(node), items })
}

/// The entity tables of the document: each table after a heading and a paragraph.
fn entity_tables(document: &NodeRef) -> (r: Result<Vec<Table>, ParseError>) {
    let nodes = match select_nodes(document, "h4 + p ~ table") {
        Some(n) => n,
        None => {
            return Err(ParseError::Structure);
        },
    };
    let mut tables: Vec<Table> = Vec::new();
    let mut i: usize = 0;
    while i < nodes.len()
        decreases nodes.len() - i,
    {
        match table_of(&nodes[i]) {
            Some(t) => tables.push(t),
            None => {
                return Err(ParseError::Structure);
            },
        }
        i += 1;
    }
    Ok(tables)
}

/// The lists of the document that follow a heading and a paragraph.
fn entity_lists(document: &NodeRef) -> (r: Result<Vec<List>, ParseError>) {
    let nodes = match select_nodes(document, "h4 + p + ul") {
        Some(n) => n,
        None => {
            return Err(ParseError::Structure);
        },
    };
    let mut lists: Vec<List> = Vec::new();
    let mut i: usize = 0;
    while i < nodes.len()
        decreases nodes.len() - i,
    {
        match list_of(&nodes[i]) {
            Some(l) => lists.push(l),
            None => {
                return Err(ParseError::Structure);
            },
        }
        i += 1;
    }
    Ok(lists)
}

/// Reads every entity of the document, in document order: each is what its table
/// describes.
pub fn parser(document: &NodeRef) -> (r: Result<Vec<TelegramTypeOrMethod>, ParseError>)
    ensures
        r matches Ok(es) ==> exists|ts: Seq<Table>|
            #[trigger] tables_error(ts, 0) is None && es@.len() == ts.len() && forall|i: int|
                0 <= i < ts.len() ==> entity_parsed(#[trigger] ts[i], es@[i]),
{
    let tables = entity_tables(document)?;
    let r = parse_tables(&tables);
    if let Ok(_) = &r {
        assert(tables_error(tables@, 0) is None);
    }
    r
}

/// Reads the unions that the document enumerates as bulleted lists, past the first
/// two lists.
pub fn enum_parser(document: &NodeRef) -> (r: Result<Vec<FieldType>, ParseError>)
    ensures
        r matches Ok(fts) ==> exists|ls: Seq<List>|
            fts@.len() == (if #[trigger] ls.len() >= 2 {
                ls.len() - 2
            } else {
                0
            }) && forall|i: int|
                0 <= i < fts@.len() ==> i + 2 < ls.len() && list_parsed(
                    #[trigger] ls[i + 2],
                    fts@[i],
                ),
{
    let lists = entity_lists(document)?;
    let r = parse_lists(&lists);
    if let Ok(fts) = &r {
        assert(fts@.len() == (if lists@.len() >= 2 {
            lists@.len() - 2
        } else {
            0
        }));
    }
    r
}

} // verus!
