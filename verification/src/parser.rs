//! The extraction pipeline: decoded text to structured record.
//!
//! Four fixed anchor-pair rules are run independently over the whole decoded
//! document. The title, summary and body rules are mandatory, checked in that
//! order, and each failure carries the input's identifier; the document-link
//! rule is optional. The three mandatory captures are cleaned to plain text;
//! the link is kept verbatim, since it is an attribute value and not prose.

use vstd::prelude::*;

use crate::cleaner::{clean_chars, clean_text};
use crate::encoding::{decode_windows1252, decoded};
use crate::error::Error;
use crate::search::{extract_fragment, fragment, has_fragment};
use crate::strutil::{chars_to_string, str_to_chars};

verus! {

/// Opening anchor of the title rule.
pub open spec fn titulo_abre() -> Seq<char> {
    "<h2>"@
}

/// Closing anchor of the title rule.
pub open spec fn titulo_fecha() -> Seq<char> {
    "</h2>"@
}

/// Opening anchor of the summary rule.
pub open spec fn resumo_abre() -> Seq<char> {
    "</h2><br>"@
}

/// Closing anchor of the summary rule.
pub open spec fn resumo_fecha() -> Seq<char> {
    "<br><br><img"@
}

/// Opening anchor of the body rule.
pub open spec fn texto_abre() -> Seq<char> {
    "><br><br><br>"@
}

/// Closing anchor of the body rule.
pub open spec fn texto_fecha() -> Seq<char> {
    "<p><img"@
}

/// Opening anchor of the document-link rule.
pub open spec fn documento_abre() -> Seq<char> {
    "btn-default\" href=\""@
}

/// Closing anchor of the document-link rule.
pub open spec fn documento_fecha() -> Seq<char> {
    "\" title"@
}

/// The record extracted from one document: cleaned title, summary and body,
/// the caller-supplied category, and the raw URL of the attached document,
/// when the page has one.
#[derive(Debug, PartialEq, Eq)]
pub struct Lei {
    pub titulo: String,
    pub categoria: String,
    pub resumo: String,
    pub texto: String,
    pub documento: Option<String>,
}

/// The document link the text calls for: the raw capture of the link rule,
/// absent when the rule does not match.
pub open spec fn spec_documento(text: Seq<char>) -> Option<Seq<char>> {
    if has_fragment(text, documento_abre(), documento_fecha()) {
        Some(fragment(text, documento_abre(), documento_fecha()))
    } else {
        None
    }
}

/// What parsing must return for a document whose decoded text is `text`:
/// the record with all fields pinned when the three mandatory rules match,
/// and otherwise the failure of the first mandatory rule that does not,
/// carrying the input identifier.
pub open spec fn parse_result_matches(
    r: Result<Lei, Error>,
    text: Seq<char>,
    arquivo: Seq<char>,
    categoria: Seq<char>,
) -> bool {
    match r {
        Ok(lei) => has_fragment(text, titulo_abre(), titulo_fecha()) && has_fragment(
            text,
            resumo_abre(),
            resumo_fecha(),
        ) && has_fragment(text, texto_abre(), texto_fecha()) && lei.titulo@ == clean_text(
            fragment(text, titulo_abre(), titulo_fecha()),
        ) && lei.resumo@ == clean_text(fragment(text, resumo_abre(), resumo_fecha()))
            && lei.texto@ == clean_text(fragment(text, texto_abre(), texto_fecha()))
            && lei.categoria@ == categoria && (match lei.documento {
            Some(d) => spec_documento(text) == Some(d@),
            None => spec_documento(text) is None,
        }),
        Err(e) => e.spec_arquivo() == arquivo && (match e {
            Error::TituloNaoEncontrado { .. } => !has_fragment(text, titulo_abre(), titulo_fecha()),
            Error::ResumoNaoEncontrado { .. } => has_fragment(text, titulo_abre(), titulo_fecha())
                && !has_fragment(text, resumo_abre(), resumo_fecha()),
            Error::TextoNaoEncontrado { .. } => has_fragment(text, titulo_abre(), titulo_fecha())
                && has_fragment(text, resumo_abre(), resumo_fecha()) && !has_fragment(
                text,
                texto_abre(),
                texto_fecha(),
            ),
        }),
    }
}

/// Parsing is a function of its inputs alone.
///
/// Law: any two results that meet the parsing contract for the same decoded
/// text, input identifier and category agree on every field, so independent
/// invocations — in any order, or side by side — cannot influence each other.
pub proof fn lemma_parse_deterministic(
    r1: Result<Lei, Error>,
    r2: Result<Lei, Error>,
    text: Seq<char>,
    arquivo: Seq<char>,
    categoria: Seq<char>,
)
    requires
        parse_result_matches(r1, text, arquivo, categoria),
        parse_result_matches(r2, text, arquivo, categoria),
    ensures
        match (r1, r2) {
            (Ok(a), Ok(b)) => a.titulo@ == b.titulo@ && a.categoria@ == b.categoria@ && a.resumo@
                == b.resumo@ && a.texto@ == b.texto@ && (a.documento is Some <==> b.documento
                is Some) && (a.documento is Some ==> a.documento.unwrap()@
                == b.documento.unwrap()@),
            (Err(e1), Err(e2)) => e1.spec_message() == e2.spec_message(),
            _ => false,
        },
{
}

/// Clean one matched HTML fragment to plain text: line-break tags become
/// newlines, all other tags are removed, the text they enclose is kept.
pub fn clean_html_to_text(capture: &str) -> (r: String)
    ensures
        r@ == clean_text(capture@),
{
    let chars = str_to_chars(capture);
    let cleaned = clean_chars(&chars);
    chars_to_string(&cleaned)
}

/// Run the whole pipeline on the raw bytes of one document: decode from
/// Windows-1252, run the four anchored rules, clean the mandatory captures,
/// and assemble the record with the caller's category label.
pub fn parse_html_to_lei(conteudo: &[u8], arquivo: &str, categoria: String) -> (r: Result<
    Lei,
    Error,
>)
    ensures
        parse_result_matches(r, decoded(conteudo@), arquivo@, categoria@),
{
    proof {
        reveal_strlit("<h2>");
        reveal_strlit("</h2>");
        reveal_strlit("</h2><br>");
        reveal_strlit("<br><br><img");
        reveal_strlit("><br><br><br>");
        reveal_strlit("<p><img");
        reveal_strlit("btn-default\" href=\"");
        reveal_strlit("\" title");
    }
    let text = decode_windows1252(conteudo);

    let t_abre = str_to_chars("<h2>");
    let t_fecha = str_to_chars("</h2>");
    let titulo_bruto = match extract_fragment(&text, &t_abre, &t_fecha) {
        Some(f) => f,
        None => {
            return Err(Error::TituloNaoEncontrado { arquivo: arquivo.to_owned() });
        },
    };

    let r_abre = str_to_chars("</h2><br>");
    let r_fecha = str_to_chars("<br><br><img");
    let resumo_bruto = match extract_fragment(&text, &r_abre, &r_fecha) {
        Some(f) => f,
        None => {
            return Err(Error::ResumoNaoEncontrado { arquivo: arquivo.to_owned() });
        },
    };

    let x_abre = str_to_chars("><br><br><br>");
    let x_fecha = str_to_chars("<p><img");
    let texto_bruto = match extract_fragment(&text, &x_abre, &x_fecha) {
        Some(f) => f,
        None => {
            return Err(Error::TextoNaoEncontrado { arquivo: arquivo.to_owned() });
        },
    };

    let d_abre = str_to_chars("btn-default\" href=\"");
    let d_fecha = str_to_chars("\" title");
    let documento = match extract_fragment(&text, &d_abre, &d_fecha) {
        Some(f) => Some(chars_to_string(&f)),
        None => None,
    };

    let titulo = chars_to_string(&clean_chars(&titulo_bruto));
    let resumo = chars_to_string(&clean_chars(&resumo_bruto));
    let texto = chars_to_string(&clean_chars(&texto_bruto));

    Ok(Lei { titulo, categoria, resumo, texto, documento })
}

} // verus!
