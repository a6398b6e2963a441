//! Plain data types shared with the platform layer of the program:
//! terminal dimensions and locale handling. The calls into the
//! platform itself (an ioctl, the C library's locale functions) are
//! made outside this crate; only the values they produce are typed here.

use vstd::prelude::*;

verus! {

/// Dimensions of a terminal window, in character cells.
#[derive(Debug)]
pub struct WinSize {
    /// Number of text rows.
    pub rows: usize,
    /// Number of text columns.
    pub cols: usize,
}

/// Errors that changing the process locale can report.
#[derive(Debug)]
pub enum LocaleError {
    /// The requested locale name contains a null byte.
    NullByte,
    /// The platform rejected the locale change.
    LocaleError,
    /// The platform's answer could not be read as text.
    ConversionError,
}

impl LocaleError {
    /// The human-readable description of the error.
    pub fn message(&self) -> (s: String)
        ensures
            self is NullByte ==> s@ == "Input contains a null byte"@,
            self is LocaleError ==> s@ == "Could not set locale"@,
            self is ConversionError ==> s@ == "Could not convert locale to string"@,
    {
        match self {
            LocaleError::NullByte => "Input contains a null byte".to_owned(),
            LocaleError::LocaleError => "Could not set locale".to_owned(),
            LocaleError::ConversionError => "Could not convert locale to string".to_owned(),
        }
    }
}

/// A locale selection: the user's preferred locale, or one named explicitly.
pub enum Locale<'a> {
    /// The locale the user's environment asks for.
    UserPreferred,
    /// A locale named explicitly.
    Named(&'a str),
}

impl<'a> Locale<'a> {
    /// The name to hand to the platform: the empty string selects the
    /// user's preferred locale.
    pub fn name(&self) -> (s: &'a str)
        ensures
            self is UserPreferred ==> s@ == Seq::<char>::empty(),
            self matches Locale::Named(n) ==> s@ == n@,
    {
        match self {
            Locale::UserPreferred => {
                let empty = "";
                proof {
                    reveal_strlit("");
                    assert(empty@ =~= Seq::<char>::empty());
                }
                empty
            },
            Locale::Named(n) => n,
        }
    }
}

} // verus!
