//! What the renderer asks of the OpenGL context before it uses it: the
//! errors that the context reports, and the version that it implements.

use crate::error::{leaf_error, wraps_leaf, GenericError};
use crate::text::{
    chars_of, contains_word, decimal, decimal_text, digit_run, digits_value, has_word, is_digit,
    lemma_digit_run_is_digits, scan_digits,
};
use vstd::prelude::*;

verus! {

/// The error codes of OpenGL: what the context's error flag can show.
pub const GL_NO_ERROR: u32 = 0;

pub const GL_INVALID_ENUM: u32 = 0x0500;

pub const GL_INVALID_VALUE: u32 = 0x0501;

pub const GL_INVALID_OPERATION: u32 = 0x0502;

pub const GL_STACK_OVERFLOW: u32 = 0x0503;

pub const GL_STACK_UNDERFLOW: u32 = 0x0504;

pub const GL_OUT_OF_MEMORY: u32 = 0x0505;

pub const GL_INVALID_FRAMEBUFFER_OPERATION: u32 = 0x0506;

/// The most errors that one flush of the context's error flags may meet.
pub const MAX_ERRORS: usize = 100;

/// The oldest OpenGL version that the renderer works with.
pub const API_VERSION: (u8, u8) = (3, 0);

/// OpenGL error code type.
#[derive(Clone, Copy, Debug, PartialEq, Eq, Hash, Structural)]
pub struct GlError(pub u32);

impl GlError {
    /// The name of the error, for the codes that have one.
    pub open spec fn name(self) -> Option<Seq<char>> {
        if self.0 == GL_INVALID_ENUM {
            Some("GL_INVALID_ENUM"@)
        } else if self.0 == GL_INVALID_FRAMEBUFFER_OPERATION {
            Some("GL_INVALID_FRAMEBUFFER_OPERATION"@)
        } else if self.0 == GL_INVALID_OPERATION {
            Some("GL_INVALID_OPERATION"@)
        } else if self.0 == GL_INVALID_VALUE {
            Some("GL_INVALID_VALUE"@)
        } else if self.0 == GL_OUT_OF_MEMORY {
            Some("GL_OUT_OF_MEMORY"@)
        } else if self.0 == GL_STACK_OVERFLOW {
            Some("GL_STACK_OVERFLOW"@)
        } else if self.0 == GL_STACK_UNDERFLOW {
            Some("GL_STACK_UNDERFLOW"@)
        } else {
            None
        }
    }

    /// The error as it is displayed: its name, `GL_NO_ERROR` for the code
    /// 0, and the number of any other code.
    pub open spec fn text(self) -> Seq<char> {
        if self.0 == GL_NO_ERROR {
            "GL_NO_ERROR"@
        } else {
            match self.name() {
                Some(name) => name,
                None => "OpenGL error code "@ + decimal(self.0 as nat),
            }
        }
    }

    /// The name of the error, for the codes that have one.
    pub fn as_str(self) -> (r: Option<&'static str>)
        ensures
            match r {
                Some(s) => self.name() == Some(s@),
                None => self.name() is None,
            },
    {
        if self.0 == GL_INVALID_ENUM {
            Some("GL_INVALID_ENUM")
        } else if self.0 == GL_INVALID_FRAMEBUFFER_OPERATION {
            Some("GL_INVALID_FRAMEBUFFER_OPERATION")
        } else if self.0 == GL_INVALID_OPERATION {
            Some("GL_INVALID_OPERATION")
        } else if self.0 == GL_INVALID_VALUE {
            Some("GL_INVALID_VALUE")
        } else if self.0 == GL_OUT_OF_MEMORY {
            Some("GL_OUT_OF_MEMORY")
        } else if self.0 == GL_STACK_OVERFLOW {
            Some("GL_STACK_OVERFLOW")
        } else if self.0 == GL_STACK_UNDERFLOW {
            Some("GL_STACK_UNDERFLOW")
        } else {
            None
        }
    }

    /// Renders the error for display.
    pub fn to_text(&self) -> (r: String)
        ensures
            r@ == self.text(),
    {
        if self.0 == GL_NO_ERROR {
            return String::from_str("GL_NO_ERROR");
        }
        match self.as_str() {
            Some(s) => String::from_str(s),
            None => {
                let mut out = String::from_str("OpenGL error code ");
                let number = decimal_text(self.0);
                out.append(number.as_str());
                out
            },
        }
    }

    /// The name of the error, or `OpenGL error` for a code without one.
    pub fn description(&self) -> (r: &'static str)
        ensures
            r@ == (match self.name() {
                Some(name) => name,
                None => "OpenGL error"@,
            }),
    {
        match self.as_str() {
            None => "OpenGL error",
            Some(s) => s,
        }
    }

    /// The error that the code read from the context stands for, if it
    /// stands for one.
    pub fn try_get_error(code: u32) -> (r: Option<GlError>)
        ensures
            r == (if code == GL_NO_ERROR {
                None
            } else {
                Some(GlError(code))
            }),
    {
        if code == GL_NO_ERROR {
            None
        } else {
            Some(GlError(code))
        }
    }

    /// The code read from the context as an error, be it `GL_NO_ERROR`.
    pub fn get_error(code: u32) -> (r: GlError)
        ensures
            r == GlError(code),
    {
        GlError(code)
    }
}

/// What a flush of the context's error flags met.
pub struct Flushed {
    /// The errors that were read, oldest first.
    pub errors: Vec<GlError>,
    /// The flush met [`MAX_ERRORS`] errors and gave up with flags still
    /// set.
    pub gave_up: bool,
}

/// Reads the context's error flags, through `get_error`, until it reports
/// none, and gives up after [`MAX_ERRORS`] errors.
pub fn flush_errors<F: Fn() -> u32>(get_error: &F) -> (r: Flushed)
    requires
        call_requires(get_error, ()),
    ensures
        r.errors.len() <= MAX_ERRORS,
        r.gave_up <==> r.errors.len() == MAX_ERRORS,
        !r.gave_up ==> call_ensures(get_error, (), GL_NO_ERROR),
        forall|i: int|
            0 <= i < r.errors.len() ==> (#[trigger] r.errors[i]).0 != GL_NO_ERROR && call_ensures(
                get_error,
                (),
                r.errors[i].0,
            ),
{
    let mut errors: Vec<GlError> = Vec::new();
    while errors.len() < MAX_ERRORS
        invariant
            call_requires(get_error, ()),
            errors.len() <= MAX_ERRORS,
            forall|i: int|
                0 <= i < errors.len() ==> (#[trigger] errors[i]).0 != GL_NO_ERROR && call_ensures(
                    get_error,
                    (),
                    errors[i].0,
                ),
        decreases MAX_ERRORS - errors.len(),
    {
        let code = get_error();
        match GlError::try_get_error(code) {
            None => {
                return Flushed { errors, gave_up: false };
            },
            Some(err) => {
                errors.push(err);
            },
        }
    }
    Flushed { errors, gave_up: true }
}

/// The version of a context that the renderer accepts.
#[derive(Clone, Copy, Debug, PartialEq, Eq, Structural)]
pub struct GlVersion {
    pub major: u8,
    pub minor: u8,
    /// The context is newer than the renderer was written for and does not
    /// say that it keeps the old interface: it may be a core profile that
    /// the renderer does not work with.
    pub possibly_unsupported: bool,
}

/// The two numbers that a version string starts with, as the digits of
/// each: digits, a dot, digits. `None` when the string starts otherwise.
pub open spec fn leading_version(s: Seq<char>) -> Option<(Seq<char>, Seq<char>)> {
    let major = digit_run(s) as int;
    if major == 0 || major >= s.len() || s[major] != '.' {
        None
    } else {
        let minor = digit_run(s.skip(major + 1)) as int;
        if minor == 0 {
            None
        } else {
            Some((s.take(major), s.subrange(major + 1, major + 1 + minor)))
        }
    }
}

/// Whether the renderer works with the version `major.minor`.
pub open spec fn version_supported(major: nat, minor: nat) -> bool {
    major > API_VERSION.0 || (major == API_VERSION.0 && minor >= API_VERSION.1)
}

/// What the check of a context's version string and extension string
/// gives.
pub open spec fn version_checked(
    version: Seq<char>,
    extensions: Seq<char>,
    r: Result<GlVersion, GenericError>,
) -> bool {
    match leading_version(version) {
        None => r matches Err(e) && leaf_error("can't parse GL_VERSION string"@, e),
        Some((major, minor)) => {
            if digits_value(major) > u8::MAX || digits_value(minor) > u8::MAX {
                r matches Err(e) && wraps_leaf("can't parse integer"@, e)
            } else if !version_supported(digits_value(major), digits_value(minor)) {
                r matches Err(e) && leaf_error(
                    "unsupported OpenGL version: "@ + decimal(digits_value(major)) + "."@ + decimal(
                        digits_value(minor),
                    ),
                    e,
                )
            } else {
                r == Ok::<GlVersion, GenericError>(
                    GlVersion {
                        major: digits_value(major) as u8,
                        minor: digits_value(minor) as u8,
                        possibly_unsupported: digits_value(major) > API_VERSION.0 && !has_word(
                            extensions,
                            "GL_ARB_compatibility"@,
                        ),
                    },
                )
            }
        },
    }
}

/// `u8::from_str`, std's parser of decimal numbers, on text that is one
/// digit or more and nothing else: it gives the number that the digits
/// stand for, and fails exactly when that number does not fit a byte.
/// Nothing is claimed for any other text.
#[verifier::external_body]
fn parse_byte(text: &str) -> (r: Result<u8, std::num::ParseIntError>)
    ensures
        text@.len() > 0 && (forall|i: int| 0 <= i < text@.len() ==> is_digit(#[trigger] text@[i]))
            ==> match r {
            Ok(v) => v == digits_value(text@),
            Err(_) => digits_value(text@) > u8::MAX,
        },
{
    <u8 as std::str::FromStr>::from_str(text)
}

/// Makes sure we're using a compatible OpenGL version: `version` is the
/// context's version string, `extensions` the names of its extensions,
/// separated by white space.
pub fn check_gl_version(version: &str, extensions: &str) -> (r: Result<GlVersion, GenericError>)
    ensures
        version_checked(version@, extensions@, r),
{
    let chars = chars_of(version);
    proof {
        lemma_digit_run_is_digits(chars@);
        assert(chars@.skip(0) =~= chars@);
    }
    let major_end = scan_digits(&chars, 0);
    if major_end == 0 || major_end >= chars.len() || chars[major_end] != '.' {
        return Err(GenericError::from("can't parse GL_VERSION string"));
    }
    let minor_start = major_end + 1;
    let minor_end = scan_digits(&chars, minor_start);
    if minor_end == minor_start {
        return Err(GenericError::from("can't parse GL_VERSION string"));
    }
    proof {
        let rest = chars@.skip(minor_start as int);
        lemma_digit_run_is_digits(rest);
        assert forall|i: int| minor_start <= i < minor_end implies crate::text::is_digit(
            #[trigger] chars@[i],
        ) by {
            assert(rest[i - minor_start] == chars@[i]);
        }
        assert(chars@.take(major_end as int) =~= chars@.subrange(0, major_end as int));
    }
    let major_text = version.substring_char(0, major_end);
    let minor_text = version.substring_char(minor_start, minor_end);
    proof {
        assert(major_text@ =~= chars@.take(major_end as int));
        assert forall|i: int| 0 <= i < major_text@.len() implies is_digit(
            #[trigger] major_text@[i],
        ) by {
            assert(major_text@[i] == chars@[i]);
        }
        assert forall|i: int| 0 <= i < minor_text@.len() implies is_digit(
            #[trigger] minor_text@[i],
        ) by {
            assert(minor_text@[i] == chars@[minor_start + i]);
        }
    }
    let major = match parse_byte(major_text) {
        Ok(major) => major,
        Err(err) => {
            return Err(GenericError::from(err));
        },
    };
    let minor = match parse_byte(minor_text) {
        Ok(minor) => minor,
        Err(err) => {
            return Err(GenericError::from(err));
        },
    };
    if major < API_VERSION.0 || (major == API_VERSION.0 && minor < API_VERSION.1) {
        let mut message = String::from_str("unsupported OpenGL version: ");
        let major_text = decimal_text(major as u32);
        message.append(major_text.as_str());
        message.append(".");
        let minor_text = decimal_text(minor as u32);
        message.append(minor_text.as_str());
        return Err(GenericError::from(message));
    }
    let mut possibly_unsupported = false;
    if major > API_VERSION.0 {
        let words = chars_of(extensions);
        let wanted = chars_of("GL_ARB_compatibility");
        possibly_unsupported = !contains_word(&words, &wanted);
    }
    Ok(GlVersion { major, minor, possibly_unsupported })
}

} // verus!
