//! The project's settings: what the configuration file holds and what the
//! linter and the formatter make of it.
use vstd::prelude::*;

use crate::linter::rule::LinterGroup;


pub mod configuration;
pub mod rules;
pub mod settings;

pub mod value;

verus! {

#[verifier::external_type_specification]
#[verifier::external_body]
pub struct ExTomlError(toml::de::Error);

#[verifier::external_type_specification]
#[verifier::external_body]
pub struct ExRegexError(regex::Error);

/// Errors of reading the settings.
#[derive(Debug)]
pub enum SettingsError {
    ConfigNotFound(String),
    ParseError(String),
    FileError(String),
    IOError(std::io::Error),
    UnexpectedFieldType(String, String),
    UnexpectedValueType(String),
    UnknownRule(LinterGroup, String),
    TomlError(String),
    FileTooLarge,
    UnsupportedFileType(String),
    MissingConfigFile,
    BadFooterValue(String),
    FooterValueNotFound(String),
    MultipleFooterValues(String),
    InvalidOnConflictAction(String, String),
    NestedExtend,
    TomlParseError(toml::de::Error),
    UnknownOnConflictAction(String),
    InvalidWordCase(String),
    InvalidTextCase(String),
    InvalidPattern(regex::Error),
    TemplateParseError(crate::tpl::TemplateError),
}

/// Mathematical model of an error: its variant and its texts. The errors of
/// outside libraries are opaque; of a template error, the message of a parse
/// error is kept.
pub enum ErrorModel {
    ConfigNotFound(Seq<char>),
    ParseError(Seq<char>),
    FileError(Seq<char>),
    IOError,
    UnexpectedFieldType(Seq<char>, Seq<char>),
    UnexpectedValueType(Seq<char>),
    UnknownRule(LinterGroup, Seq<char>),
    TomlError(Seq<char>),
    FileTooLarge,
    UnsupportedFileType(Seq<char>),
    MissingConfigFile,
    BadFooterValue(Seq<char>),
    FooterValueNotFound(Seq<char>),
    MultipleFooterValues(Seq<char>),
    InvalidOnConflictAction(Seq<char>, Seq<char>),
    NestedExtend,
    TomlParseError,
    UnknownOnConflictAction(Seq<char>),
    InvalidWordCase(Seq<char>),
    InvalidTextCase(Seq<char>),
    InvalidPattern,
    TemplateParseError(Option<Seq<char>>),
}

impl View for SettingsError {
    type V = ErrorModel;

    open spec fn view(&self) -> ErrorModel {
        match self {
            SettingsError::ConfigNotFound(s) => ErrorModel::ConfigNotFound(s@),
            SettingsError::ParseError(s) => ErrorModel::ParseError(s@),
            SettingsError::FileError(s) => ErrorModel::FileError(s@),
            SettingsError::IOError(_) => ErrorModel::IOError,
            SettingsError::UnexpectedFieldType(a, b) => ErrorModel::UnexpectedFieldType(a@, b@),
            SettingsError::UnexpectedValueType(s) => ErrorModel::UnexpectedValueType(s@),
            SettingsError::UnknownRule(g, s) => ErrorModel::UnknownRule(*g, s@),
            SettingsError::TomlError(s) => ErrorModel::TomlError(s@),
            SettingsError::FileTooLarge => ErrorModel::FileTooLarge,
            SettingsError::UnsupportedFileType(s) => ErrorModel::UnsupportedFileType(s@),
            SettingsError::MissingConfigFile => ErrorModel::MissingConfigFile,
            SettingsError::BadFooterValue(s) => ErrorModel::BadFooterValue(s@),
            SettingsError::FooterValueNotFound(s) => ErrorModel::FooterValueNotFound(s@),
            SettingsError::MultipleFooterValues(s) => ErrorModel::MultipleFooterValues(s@),
            SettingsError::InvalidOnConflictAction(a, b) => ErrorModel::InvalidOnConflictAction(a@, b@),
            SettingsError::NestedExtend => ErrorModel::NestedExtend,
            SettingsError::TomlParseError(_) => ErrorModel::TomlParseError,
            SettingsError::UnknownOnConflictAction(s) => ErrorModel::UnknownOnConflictAction(s@),
            SettingsError::InvalidWordCase(s) => ErrorModel::InvalidWordCase(s@),
            SettingsError::InvalidTextCase(s) => ErrorModel::InvalidTextCase(s@),
            SettingsError::InvalidPattern(_) => ErrorModel::InvalidPattern,
            SettingsError::TemplateParseError(e) => ErrorModel::TemplateParseError(
                match e {
                    crate::tpl::TemplateError::ParseError(m) => Some(m@),
                    _ => None,
                },
            ),
        }
    }
}

/// A result whose error is taken by its model.
pub open spec fn result_view<T>(r: Result<T, SettingsError>) -> Result<T, ErrorModel> {
    match r {
        Ok(v) => Ok(v),
        Err(e) => Err(e@),
    }
}

} // verus!
