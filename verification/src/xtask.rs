//! Finishing touches for generated source files: they are formatted with `rustfmt`
//! from the stable toolchain and start with a preamble that says they are generated.
//!
//! Running `rustfmt` is up to the caller, which hands over what it printed.
use vstd::prelude::*;

use crate::path::str_equal;

verus! {

#[derive(Debug, PartialEq, Eq, Clone, Copy)]
pub enum Mode {
    Overwrite,
    Verify,
}

/// Why a generated file could not be formatted.
#[derive(Debug, PartialEq, Eq, Clone, Copy)]
pub enum XtaskError {
    /// `rustfmt` does not come from the stable toolchain.
    RustfmtNotStable,
}

/// The message that explains an [XtaskError].
pub fn error_message(error: XtaskError) -> (r: &'static str)
    ensures
        error == XtaskError::RustfmtNotStable ==> r@ == RUSTFMT_NOT_STABLE@,
{
    match error {
        XtaskError::RustfmtNotStable => RUSTFMT_NOT_STABLE,
    }
}

pub const RUSTFMT_NOT_STABLE: &'static str = "Failed to run rustfmt from toolchain 'stable'. Please run `rustup component add rustfmt --toolchain stable` to install it.";

pub const PREAMBLE: &'static str = "Generated file, do not edit by hand, see `xtask/codegen`";

/// `text` holds `word` somewhere.
pub open spec fn contains_word(text: Seq<char>, word: Seq<char>) -> bool {
    exists|i: int| 0 <= i && i + word.len() <= text.len() && #[trigger] text.subrange(i, i + word.len()) == word
}

/// Whether `text` holds `word` somewhere.
pub fn contains_str(text: &str, word: &str) -> (r: bool)
    ensures
        r == contains_word(text@, word@),
{
    let n = text.unicode_len();
    let m = word.unicode_len();
    if m > n {
        return false;
    }
    if m == 0 {
        assert(text@.subrange(0int, 0int + word@.len()) =~= word@);
        return true;
    }
    let mut i: usize = 0;
    while i <= n - m
        invariant
            n == text@.len(),
            m == word@.len(),
            1 <= m <= n,
            0 <= i <= n - m + 1,
            forall|j: int| 0 <= j < i ==> #[trigger] text@.subrange(j, j + m) != word@,
        decreases n - m + 1 - i,
    {
        if str_equal(text.substring_char(i, i + m), word) {
            return true;
        }
        i = i + 1;
    }
    false
}

/// The preamble followed by `content`.
pub fn prepend_generated_preamble(content: &str) -> (r: String)
    ensures
        r@ == "//! "@ + PREAMBLE@ + "\n\n"@ + content@,
{
    let mut out = String::from_str("//! ");
    out.append(PREAMBLE);
    out.append("\n\n");
    out.append(content);
    out
}

/// Checks that `rustfmt --version` printed `version`, which names the stable
/// toolchain.
pub fn ensure_rustfmt(version: &str) -> (r: Result<(), XtaskError>)
    ensures
        r is Ok <==> contains_word(version@, "stable"@),
        r matches Err(e) ==> e == XtaskError::RustfmtNotStable,
{
    if !contains_str(version, "stable") {
        return Err(XtaskError::RustfmtNotStable);
    }
    Ok(())
}

/// What formatting a generated text gives, once `rustfmt --version` printed
/// `version` and `rustfmt` printed `output`: the output with a final newline.
pub fn reformat_without_preamble(version: &str, output: &str) -> (r: Result<String, XtaskError>)
    ensures
        r is Ok <==> contains_word(version@, "stable"@),
        r matches Ok(t) ==> t@ == output@ + "\n"@,
        r matches Err(e) ==> e == XtaskError::RustfmtNotStable,
{
    ensure_rustfmt(version)?;
    let mut out = String::from_str(output);
    out.append("\n");
    Ok(out)
}

/// The formatted text, with the generated file preamble in front.
pub fn reformat(version: &str, output: &str) -> (r: Result<String, XtaskError>)
    ensures
        r is Ok <==> contains_word(version@, "stable"@),
        r matches Ok(t) ==> t@ == "//! "@ + PREAMBLE@ + "\n\n"@ + output@ + "\n"@,
        r matches Err(e) ==> e == XtaskError::RustfmtNotStable,
{
    let formatted = reformat_without_preamble(version, output)?;
    let r = prepend_generated_preamble(formatted.as_str());
    assert(r@ =~= "//! "@ + PREAMBLE@ + "\n\n"@ + output@ + "\n"@);
    Ok(r)
}

/// The formatted text, behind a note that names the `command` that generates it.
pub fn reformat_with_command(version: &str, output: &str, command: &str) -> (r: Result<
    String,
    XtaskError,
>)
    ensures
        r is Ok <==> contains_word(version@, "stable"@),
        r matches Ok(t) ==> t@ == "//! This is a generated file. Don't modify it by hand! Run '"@
            + command@ + "' to re-generate the file.\n\n"@ + output@ + "\n"@,
        r matches Err(e) ==> e == XtaskError::RustfmtNotStable,
{
    let formatted = reformat_without_preamble(version, output)?;
    let mut out = String::from_str(
        "//! This is a generated file. Don't modify it by hand! Run '",
    );
    out.append(command);
    out.append("' to re-generate the file.\n\n");
    out.append(formatted.as_str());
    assert(out@ =~= "//! This is a generated file. Don't modify it by hand! Run '"@ + command@
        + "' to re-generate the file.\n\n"@ + output@ + "\n"@);
    Ok(out)
}

} // verus!
