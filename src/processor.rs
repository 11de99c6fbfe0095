use vstd::prelude::*;
use vstd::utf8::valid_utf8;
use crate::binary::{binary_spec, is_binary};
use crate::error::ErrorKind;
use crate::source::PathState;
use crate::substitution::{Rendered, byte_strings, extend_bytes, render, render_spec, unresolved_from};

verus! {

/// Relies on std::str::from_utf8: it accepts exactly the valid UTF-8 byte
/// strings.
#[verifier::external_body]
fn is_valid_utf8(bytes: &[u8]) -> (r: bool)
    ensures
        r == valid_utf8(bytes@),
{
    std::str::from_utf8(bytes).is_ok()
}

/// What a file becomes in the server directory. A binary file (see
/// `is_binary`) is copied byte for byte. Any other file must be UTF-8 text,
/// else it is a decode error; its placeholders are substituted (see
/// `render`), and the names left without a value are reported.
pub fn process_file(
    contents: &[u8],
    env: &Vec<(String, String)>,
    overrides: &Vec<(String, String)>,
) -> (r: Result<Rendered, ErrorKind>)
    ensures
        binary_spec(contents@) ==> match r {
            Ok(out) => out.text@ == contents@ && out.unresolved@.len() == 0,
            Err(_) => false,
        },
        !binary_spec(contents@) && !valid_utf8(contents@) ==> r == Err::<Rendered, _>(
            ErrorKind::DecodeError,
        ),
        !binary_spec(contents@) && valid_utf8(contents@) ==> match r {
            Ok(out) => out.text@ == render_spec(contents@, env@, overrides@) && byte_strings(
                out.unresolved@,
            ) == unresolved_from(contents@, 0, env@, overrides@),
            Err(_) => false,
        },
{
    if is_binary(contents) {
        let mut text: Vec<u8> = Vec::new();
        extend_bytes(&mut text, contents);
        assert(text@ =~= contents@);
        Ok(Rendered { text, unresolved: Vec::new() })
    } else if !is_valid_utf8(contents) {
        Err(ErrorKind::DecodeError)
    } else {
        Ok(render(contents, env, overrides))
    }
}

/// How one entry of the settings' file mapping is handled.
#[derive(Debug, Clone, Copy, PartialEq, Eq, Structural)]
pub enum MappingAction {
    /// Create the target's parent directories and process the file.
    ProcessFile,
    /// Walk the directory, recreating its directories and processing each
    /// file at the same relative path under the target.
    ProcessDirectory,
}

/// The handling of a mapping entry whose source is in `state`: a missing
/// source is an error.
pub fn plan_mapping(state: PathState) -> (r: Result<MappingAction, ErrorKind>)
    ensures
        state == PathState::Missing ==> r == Err::<MappingAction, _>(ErrorKind::SourceNotFound),
        state == PathState::File ==> r == Ok::<_, ErrorKind>(MappingAction::ProcessFile),
        state == PathState::Directory ==> r == Ok::<_, ErrorKind>(MappingAction::ProcessDirectory),
{
    match state {
        PathState::Missing => Err(ErrorKind::SourceNotFound),
        PathState::File => Ok(MappingAction::ProcessFile),
        PathState::Directory => Ok(MappingAction::ProcessDirectory),
    }
}

} // verus!
