//! A manifest's source together with its syntax tree.

use vstd::prelude::*;
use vstd::utf8::*;
use vstd::string::StringSliceAdditionalSpecFns;
use crate::edit::{replace_span, spliced, valid_span};
use crate::extract::{extract_record, manifest_record};
use crate::model::{ByteSpan, PackageAndDepsNodes, PkgInfo};
use crate::syntax::{parse_manifest, source_tree, SyntaxTree};

verus! {

/// The manifest could not be parsed.
#[derive(Clone, Copy, Debug, PartialEq, Eq, Structural)]
pub enum TomlParserError {
    ParseError,
}

/// A manifest's source and the tree the TOML grammar gives it. Spans taken
/// from it are valid for this source only.
pub struct TomlParser {
    pub source: String,
    pub tree: SyntaxTree,
}

impl TomlParser {
    /// The source's bytes.
    pub open spec fn bytes(&self) -> Seq<u8> {
        encode_utf8(self.source@)
    }

    /// The tree is well formed over the source.
    pub open spec fn wf(&self) -> bool {
        self.tree.wf(self.bytes().len())
    }

    /// Parses `source`: the tree that the TOML grammar gives it, and an
    /// error exactly when it gives none.
    pub fn new(source: &str) -> (r: Result<TomlParser, TomlParserError>)
        ensures
            match r {
                Ok(p) => p.source@ == source@ && p.wf() && source_tree(source@) == Some(p.tree@),
                Err(_) => source_tree(source@) is None,
            },
    {
        match parse_manifest(source) {
            Some(tree) => Ok(TomlParser { source: source.to_owned(), tree }),
            None => Err(TomlParserError::ParseError),
        }
    }

    /// The package and dependencies the manifest declares, each with the
    /// span of its version literal; `None` when it declares neither.
    pub fn find_package_and_deps(&self) -> (r: Option<PackageAndDepsNodes>)
        requires
            self.wf(),
        ensures
            match r {
                Some(x) => manifest_record(self.bytes(), self.tree@) == Some(x@),
                None => manifest_record(self.bytes(), self.tree@) is None,
            },
    {
        extract_record(self.source.as_str().as_bytes(), &self.tree)
    }

    /// The package the manifest declares, if any.
    pub fn find_package(&self) -> (r: Option<PkgInfo>)
        requires
            self.wf(),
        ensures
            match r {
                Some(p) => manifest_record(self.bytes(), self.tree@) matches Some(rec)
                    && rec.package matches Some(q) && q.1 == p@,
                None => manifest_record(self.bytes(), self.tree@) is None || manifest_record(
                    self.bytes(),
                    self.tree@,
                )->0.package is None,
            },
    {
        match extract_record(self.source.as_str().as_bytes(), &self.tree) {
            Some(rec) => match rec.package {
                Some((_, info)) => Some(info),
                None => None,
            },
            None => None,
        }
    }

    /// The source with the bytes of `span` replaced by `new_value`.
    pub fn edit_node(&self, span: ByteSpan, new_value: &str) -> (r: String)
        requires
            valid_span(self.bytes(), span),
        ensures
            encode_utf8(r@) == spliced(self.bytes(), span, new_value.spec_bytes()),
    {
        replace_span(self.source.as_str(), span, new_value)
    }
}

} // verus!
