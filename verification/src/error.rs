//! Errors of the compiler.

use vstd::prelude::*;

verus! {

#[verifier::external_type_specification]
#[verifier::external_body]
pub struct ExIoError(std::io::Error);

#[verifier::external_type_specification]
#[verifier::external_body]
pub struct ExUtf8Error(std::str::Utf8Error);

#[verifier::external_type_specification]
#[verifier::external_body]
pub struct ExFromUtf8Error(std::string::FromUtf8Error);

#[verifier::external_type_specification]
#[verifier::external_body]
pub struct ExSynError(syn::Error);

#[verifier::external_type_specification]
#[verifier::external_body]
#[verifier::reject_recursive_types(T)]
pub struct ExCssError<T>(lightningcss::error::Error<T>);

#[verifier::external_type_specification]
#[verifier::external_body]
pub struct ExPrinterErrorKind(lightningcss::error::PrinterErrorKind);

#[verifier::external_type_specification]
#[verifier::external_body]
pub struct ExSourceSpan(miette::SourceSpan);

/// Everything that can go wrong while compiling a project.
#[derive(Debug)]
pub enum Compiler {
    /// Error in reading or writing files.
    IoError(std::io::Error),
    /// Error in decoding content.
    Encoding(std::str::Utf8Error),
    /// Another encoding error.
    Encoding2(std::string::FromUtf8Error),
    /// Error in parsing some Rust syntax.
    Parse(syn::Error),
    /// Valid Rust, but not in the form expected.
    WrongSyntax(&'static str),
    /// Error in printing CSS.
    CssPrintError(lightningcss::error::Error<lightningcss::error::PrinterErrorKind>),
    /// Error in parsing CSS.
    CssPraseError(String),
    /// A `<component>` tag has no `src` attribute.
    MissingSrc,
    /// A statement of the data section is not `let mut NAME: TYPE = VALUE;`.
    WrongSyntaxInDataSection {
        /// The source code of the section.
        src: String,
        /// Where in it the statement is.
        err_span: miette::SourceSpan,
    },
}

/// A `Result` using the [`Compiler`] error.
pub type CompilerResult<T> = Result<T, Compiler>;

} // verus!
