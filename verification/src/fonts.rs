//! What the font lookup hands back, as plain values. The lookup itself is
//! the caller's.

use vstd::prelude::*;

verus! {

/// Result code of a lookup that found its value.
pub const RESULT_MATCH: i32 = 0;

/// Result code of a lookup in an empty pattern.
pub const RESULT_NO_MATCH: i32 = 1;

/// Result code of a lookup whose value has another type.
pub const RESULT_TYPE_MISMATCH: i32 = 2;

/// Result code of a lookup of an element that the pattern lacks.
pub const RESULT_NO_ID: i32 = 3;

/// Result code of a lookup that ran out of memory.
pub const RESULT_OUT_OF_MEMORY: i32 = 4;

#[derive(Clone, Copy, PartialEq, Eq, Structural, Debug)]
pub enum FontConfigError {
    FontNotFound,
}

/// Why a pattern did not give up a value.
#[derive(Clone, Copy, PartialEq, Eq, Structural, Debug)]
pub enum PatternFault {
    NullPattern,
    WrongType,
    UnknownElement,
    OutOfMemory,
    /// A result code that the font library does not document.
    Unknown(i32),
}

/// The fault that a result code stands for, if it stands for one.
pub open spec fn fault_of(res: i32) -> Option<PatternFault> {
    if res == RESULT_MATCH {
        None
    } else if res == RESULT_NO_MATCH {
        Some(PatternFault::NullPattern)
    } else if res == RESULT_TYPE_MISMATCH {
        Some(PatternFault::WrongType)
    } else if res == RESULT_NO_ID {
        Some(PatternFault::UnknownElement)
    } else if res == RESULT_OUT_OF_MEMORY {
        Some(PatternFault::OutOfMemory)
    } else {
        Some(PatternFault::Unknown(res))
    }
}

/// Turns the result code of a lookup into a `Result`.
pub fn throw_on_fcpattern_result(res: i32) -> (r: Result<(), PatternFault>)
    ensures
        r == match fault_of(res) {
            Some(fault) => Err::<(), PatternFault>(fault),
            None => Ok(()),
        },
{
    if res == RESULT_MATCH {
        Ok(())
    } else if res == RESULT_NO_MATCH {
        Err(PatternFault::NullPattern)
    } else if res == RESULT_TYPE_MISMATCH {
        Err(PatternFault::WrongType)
    } else if res == RESULT_NO_ID {
        Err(PatternFault::UnknownElement)
    } else if res == RESULT_OUT_OF_MEMORY {
        Err(PatternFault::OutOfMemory)
    } else {
        Err(PatternFault::Unknown(res))
    }
}

/// A matched font: the file that holds it and its index in that file.
pub struct Pattern {
    pub file_name: String,
    pub font_index: isize,
}

impl Pattern {
    /// The pattern for what two lookups gave: the file name with its result
    /// code, then the index with its own. The first fault wins.
    pub fn new(file_res: i32, file_name: String, index_res: i32, font_index: isize) -> (r: Result<
        Pattern,
        PatternFault,
    >)
        ensures
            r == match (fault_of(file_res), fault_of(index_res)) {
                (Some(fault), _) => Err::<Pattern, PatternFault>(fault),
                (None, Some(fault)) => Err(fault),
                (None, None) => Ok(Pattern { file_name, font_index }),
            },
    {
        match throw_on_fcpattern_result(file_res) {
            Ok(()) => {},
            Err(fault) => {
                return Err(fault);
            },
        }
        match throw_on_fcpattern_result(index_res) {
            Ok(()) => {},
            Err(fault) => {
                return Err(fault);
            },
        }
        Ok(Pattern { file_name, font_index })
    }

    pub fn get_file_name(&self) -> (name: &String)
        ensures
            *name == self.file_name,
    {
        &self.file_name
    }

    pub fn get_font_index(&self) -> (index: isize)
        ensures
            index == self.font_index,
    {
        self.font_index
    }
}

/// What a font match gives: the pattern that was found, or the error for
/// none.
pub fn match_pattern(found: Option<Pattern>) -> (r: Result<Pattern, FontConfigError>)
    ensures
        r == match found {
            Some(pattern) => Ok::<Pattern, FontConfigError>(pattern),
            None => Err(FontConfigError::FontNotFound),
        },
{
    match found {
        Some(pattern) => Ok(pattern),
        None => Err(FontConfigError::FontNotFound),
    }
}

} // verus!
