//! The failures of the extraction pipeline.
//!
//! Each mandatory field has a failure kind of its own, carrying the
//! identifier of the input it came from. The absence of the optional document
//! link is not a failure.

use vstd::prelude::*;
use vstd::string::StringExecFns;

verus! {

/// A mandatory fragment was missing from the document. The payload is the
/// identifier (conventionally the file name) of the offending input.
#[derive(Debug, PartialEq, Eq)]
pub enum Error {
    TituloNaoEncontrado { arquivo: String },
    ResumoNaoEncontrado { arquivo: String },
    TextoNaoEncontrado { arquivo: String },
}

impl Error {
    /// The identifier of the input this failure came from.
    pub open spec fn spec_arquivo(&self) -> Seq<char> {
        match self {
            Error::TituloNaoEncontrado { arquivo } => arquivo@,
            Error::ResumoNaoEncontrado { arquivo } => arquivo@,
            Error::TextoNaoEncontrado { arquivo } => arquivo@,
        }
    }

    /// The diagnostic message: the missing field's name and the input it was
    /// missing from.
    pub open spec fn spec_message(&self) -> Seq<char> {
        match self {
            Error::TituloNaoEncontrado { arquivo } => "Título não encontrado no arquivo "@
                + arquivo@,
            Error::ResumoNaoEncontrado { arquivo } => "Resumo não encontrado no arquivo "@
                + arquivo@,
            Error::TextoNaoEncontrado { arquivo } => "Texto não encontrado no arquivo "@
                + arquivo@,
        }
    }

    /// Render the diagnostic message.
    pub fn message(&self) -> (r: String)
        ensures
            r@ == self.spec_message(),
    {
        match self {
            Error::TituloNaoEncontrado { arquivo } => {
                let mut m = String::from_str("Título não encontrado no arquivo ");
                m.append(arquivo.as_str());
                m
            },
            Error::ResumoNaoEncontrado { arquivo } => {
                let mut m = String::from_str("Resumo não encontrado no arquivo ");
                m.append(arquivo.as_str());
                m
            },
            Error::TextoNaoEncontrado { arquivo } => {
                let mut m = String::from_str("Texto não encontrado no arquivo ");
                m.append(arquivo.as_str());
                m
            },
        }
    }
}

} // verus!
