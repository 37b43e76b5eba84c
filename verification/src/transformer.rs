//! The operations of the adapter: from a package that was read to a
//! document, and from a document to a package and its bytes.

use vstd::prelude::*;
use crate::error::{FormatError, GenerateError};
use crate::model::{Document, ElementModel};
use crate::package::{body_of, numberings_of, seen_body};
use crate::reader::lift_body;
use crate::reconstruct::{reconstruct, reconstructed};
use crate::render::{chunks_view, render, rendered};
use crate::writer::{
    all_placed, assemble, has_picture, none_placed, pack, place, placed_view, shared_numberings,
    written, PlacedModel,
};

verus! {

/// The adapter for word-processing packages.
pub struct Transformer;

/// The document that the outcome of reading a package is parsed into, or
/// the error: the package must have been read, and what the reader sees of
/// its body must reconstruct.
pub open spec fn parsed(read: Result<docx_rs::Docx, docx_rs::ReaderError>) -> Result<
    Seq<ElementModel>,
    FormatError,
> {
    match read {
        Err(_) => Err(FormatError::Container),
        Ok(package) => reconstructed(seen_body(body_of(package))),
    }
}

/// What writing a document returns once the package is assembled and the
/// packer has answered: the bytes, or an encoding error where it gave none.
pub open spec fn written_bytes(packed: Option<Vec<u8>>) -> Result<Vec<u8>, GenerateError> {
    match packed {
        Some(bytes) => Ok(bytes),
        None => Err(GenerateError::Encoding),
    }
}

impl Transformer {
    /// Parses what `docx_rs::read_docx` made of the bytes of a package into
    /// a document.
    ///
    /// Fails with [`FormatError::Container`] exactly where the package was
    /// not read, and else with the error of the first paragraph whose
    /// numbering reference is incomplete, if there is one.
    pub fn parse(read: Result<docx_rs::Docx, docx_rs::ReaderError>) -> (result: Result<
        Document,
        FormatError,
    >)
        ensures
            match parsed(read) {
                Ok(elements) => result is Ok && result->Ok_0@ == elements,
                Err(e) => result == Err::<Document, FormatError>(e),
            },
    {
        match read {
            Err(_) => Err(FormatError::Container),
            Ok(package) => {
                let blocks = lift_body(&package);
                match reconstruct(&blocks) {
                    Ok(elements) => Ok(Document::new(elements)),
                    Err(e) => Err(e),
                }
            },
        }
    }

    /// Builds the package of a document: the two numberings, and in the
    /// body what each rendered chunk adds, in the order of the document.
    ///
    /// Fails with [`FormatError::Nesting`] exactly where the document cannot
    /// be rendered, and with [`FormatError::Picture`] only where it holds a
    /// picture. A document that renders and holds no picture always gives
    /// its package.
    pub fn package(document: &Document) -> (result: Result<docx_rs::Docx, FormatError>)
        ensures
            match rendered(document@) {
                Err(e) => result is Err && result->Err_0 == e,
                Ok(chunks) => match result {
                    Ok(package) => {
                        &&& numberings_of(package) == shared_numberings()
                        &&& exists|placed: Seq<Option<PlacedModel>>|
                            all_placed(chunks, placed) && body_of(package) == #[trigger] written(
                                chunks,
                                placed,
                                0,
                            )
                    },
                    Err(e) => e == FormatError::Picture && has_picture(chunks),
                },
            },
            rendered(document@) is Ok && !has_picture(rendered(document@)->Ok_0) ==> result is Ok
                && body_of(result->Ok_0) == written(
                rendered(document@)->Ok_0,
                none_placed(rendered(document@)->Ok_0),
                0,
            ),
    {
        match render(document) {
            Err(e) => Err(e),
            Ok(chunks) => match place(&chunks) {
                Err(e) => Err(e),
                Ok(placed) => {
                    let package = assemble(&chunks, &placed);
                    proof {
                        let model = chunks_view(chunks@);
                        let pictures = placed_view(placed@);
                        assert(all_placed(model, pictures));
                        if !has_picture(model) {
                            assert forall|i: int| 0 <= i < model.len() implies pictures[i]
                                == none_placed(model)[i] by {
                                assert(!(model[i] is Picture));
                                assert(crate::writer::placed_for(model[i], pictures[i]));
                            }
                            assert(pictures =~= none_placed(model));
                        }
                    }
                    Ok(package)
                },
            },
        }
    }

    /// Turns the packer's answer into the result of [`Transformer::generate`].
    pub fn finish(packed: Option<Vec<u8>>) -> (result: Result<Vec<u8>, GenerateError>)
        ensures
            result == written_bytes(packed),
    {
        match packed {
            Some(bytes) => Ok(bytes),
            None => Err(GenerateError::Encoding),
        }
    }

    /// Writes a document as the bytes of its package; see
    /// [`Transformer::package`] for what the package holds.
    ///
    /// Fails with a format error exactly as [`Transformer::package`] does.
    /// Else the packer decides: its bytes are returned, or an encoding error
    /// where it reports one.
    pub fn generate(document: &Document) -> (result: Result<Vec<u8>, GenerateError>)
        ensures
            match rendered(document@) {
                Err(e) => result == Err::<Vec<u8>, GenerateError>(GenerateError::Format(e)),
                Ok(chunks) => {
                    ||| result is Ok
                    ||| result == Err::<Vec<u8>, GenerateError>(GenerateError::Encoding)
                    ||| has_picture(chunks) && result == Err::<Vec<u8>, GenerateError>(
                        GenerateError::Format(FormatError::Picture),
                    )
                },
            },
    {
        match Transformer::package(document) {
            Err(e) => Err(GenerateError::Format(e)),
            Ok(package) => Transformer::finish(pack(package)),
        }
    }
}

} // verus!
