//! A matcher of any kind, as one type.

use crate::book::GutenbergFileEntry;
use crate::error::Error;
use crate::fst_parser::{FSTParser, MatcherState, ParseItemResult, ParseResult};
use crate::fst_parser_file_node::FSTParserFileNode;
use crate::fst_parser_node::FSTParserNode;
use crate::fst_parser_or_node::FSTParserOrNode;
use crate::fst_parser_type::ParseType;
use vstd::prelude::*;

verus! {

/// A matcher of any of the three kinds.
pub enum FieldParser {
    Node(FSTParserNode),
    OrNode(FSTParserOrNode),
    FileNode(FSTParserFileNode),
}

impl FSTParser for FieldParser {
    open spec fn state(&self) -> MatcherState {
        match self {
            FieldParser::Node(parser) => parser.state(),
            FieldParser::OrNode(parser) => parser.state(),
            FieldParser::FileNode(parser) => parser.state(),
        }
    }

    fn text(&mut self, text: &str, parse_result: &mut ParseResult, book_id: usize) -> (r: Result<
        (),
        Error,
    >) {
        match self {
            FieldParser::Node(parser) => parser.text(text, parse_result, book_id),
            FieldParser::OrNode(parser) => parser.text(text, parse_result, book_id),
            FieldParser::FileNode(parser) => parser.text(text, parse_result, book_id),
        }
    }

    fn reset(&mut self) {
        match self {
            FieldParser::Node(parser) => parser.reset(),
            FieldParser::OrNode(parser) => parser.reset(),
            FieldParser::FileNode(parser) => parser.reset(),
        }
    }

    fn start_node(&mut self, node_name: &str) {
        match self {
            FieldParser::Node(parser) => parser.start_node(node_name),
            FieldParser::OrNode(parser) => parser.start_node(node_name),
            FieldParser::FileNode(parser) => parser.start_node(node_name),
        }
    }

    fn attribute(
        &mut self,
        attribute_name: &str,
        attribute_value: &str,
        parse_result: &mut ParseResult,
        book_id: usize,
    ) -> (r: Result<(), Error>) {
        match self {
            FieldParser::Node(parser) => parser.attribute(
                attribute_name,
                attribute_value,
                parse_result,
                book_id,
            ),
            FieldParser::OrNode(parser) => parser.attribute(
                attribute_name,
                attribute_value,
                parse_result,
                book_id,
            ),
            FieldParser::FileNode(parser) => parser.attribute(
                attribute_name,
                attribute_value,
                parse_result,
                book_id,
            ),
        }
    }

    fn end_node(&mut self, node_name: &str) {
        match self {
            FieldParser::Node(parser) => parser.end_node(node_name),
            FieldParser::OrNode(parser) => parser.end_node(node_name),
            FieldParser::FileNode(parser) => parser.end_node(node_name),
        }
    }

    fn is_found(&self) -> (found: bool) {
        match self {
            FieldParser::Node(parser) => parser.is_found(),
            FieldParser::OrNode(parser) => parser.is_found(),
            FieldParser::FileNode(parser) => parser.is_found(),
        }
    }

    fn has_results(&self) -> (has: bool) {
        match self {
            FieldParser::Node(parser) => parser.has_results(),
            FieldParser::OrNode(parser) => parser.has_results(),
            FieldParser::FileNode(parser) => parser.has_results(),
        }
    }

    fn get_parse_type(&self) -> (kind: ParseType) {
        match self {
            FieldParser::Node(parser) => parser.get_parse_type(),
            FieldParser::OrNode(parser) => parser.get_parse_type(),
            FieldParser::FileNode(parser) => parser.get_parse_type(),
        }
    }

    fn get_result(&self) -> (r: Result<&ParseItemResult, Error>) {
        match self {
            FieldParser::Node(parser) => parser.get_result(),
            FieldParser::OrNode(parser) => parser.get_result(),
            FieldParser::FileNode(parser) => parser.get_result(),
        }
    }

    fn get_files(&self) -> (r: Result<Vec<GutenbergFileEntry>, Error>) {
        match self {
            FieldParser::Node(parser) => parser.get_files(),
            FieldParser::OrNode(parser) => parser.get_files(),
            FieldParser::FileNode(parser) => parser.get_files(),
        }
    }
}

} // verus!
