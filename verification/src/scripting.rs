//! The dispatcher and the error model shared by all backends.

use crate::js;
use crate::lua;
use std::sync::Arc;
use vstd::prelude::*;
use vstd::std_specs::convert::FromSpecImpl;

verus! {

/// The scripting backends a script can be sent to.
#[derive(Clone, Copy, Debug, PartialEq, Eq, Structural)]
pub enum Language {
    Lua,
    JavaScript,
}

impl Language {
    /// The backend's name as it appears in a rendered failure.
    pub open spec fn spec_name(&self) -> Seq<char> {
        match self {
            Language::Lua => "Lua"@,
            Language::JavaScript => "JavaScript"@,
        }
    }

    /// The backend's name as it appears in a rendered failure.
    pub fn name(&self) -> (name: &'static str)
        ensures
            name@ == self.spec_name(),
    {
        match self {
            Language::Lua => "Lua",
            Language::JavaScript => "JavaScript",
        }
    }
}

/// The shapes a caller may ask for: those that every backend can produce.
pub trait Evaluatable: lua::Evaluatable + js::Evaluatable {

}

impl<T: lua::Evaluatable + js::Evaluatable> Evaluatable for T {

}

/// A failed evaluation, tagged with the backend that reported it.
#[derive(Debug)]
pub enum Error {
    /// The Lua interpreter's own error, shared between clones.
    Lua(Arc<lua::EvalError>),
    /// The JavaScript backend's message.
    JavaScript(String),
}

/// The outcome of one evaluation through the dispatcher.
pub type Result<T> = core::result::Result<T, Error>;

/// A failure as contracts see it: the interpreter's error itself for Lua, the
/// message's characters for JavaScript.
pub enum ErrorView {
    Lua(lua::EvalError),
    JavaScript(Seq<char>),
}

impl ErrorView {
    /// The backend that reported the failure.
    pub open spec fn language(self) -> Language {
        match self {
            ErrorView::Lua(_) => Language::Lua,
            ErrorView::JavaScript(_) => Language::JavaScript,
        }
    }

    /// What the backend said went wrong.
    pub open spec fn diagnostic(self) -> Seq<char> {
        match self {
            ErrorView::Lua(native) => lua::diagnostic_text(native),
            ErrorView::JavaScript(message) => message,
        }
    }

    /// The failure as text: the backend's name, then the diagnostic in round
    /// brackets.
    pub open spec fn rendering(self) -> Seq<char> {
        rendered(self.language().spec_name(), self.diagnostic())
    }
}

impl View for Error {
    type V = ErrorView;

    open spec fn view(&self) -> ErrorView {
        match self {
            Error::Lua(native) => ErrorView::Lua(**native),
            Error::JavaScript(message) => ErrorView::JavaScript(message@),
        }
    }
}

/// The text of a failure reported by the backend called `name` with the
/// diagnostic `diagnostic`.
pub open spec fn rendered(name: Seq<char>, diagnostic: Seq<char>) -> Seq<char> {
    name + "("@ + diagnostic + ")"@
}

/// Writes the name of `language`, then `diagnostic` in round brackets.
pub fn render(language: Language, diagnostic: &str) -> (text: String)
    ensures
        text@ == rendered(language.spec_name(), diagnostic@),
{
    let mut text = String::from_str(language.name());
    text.append("(");
    text.append(diagnostic);
    text.append(")");
    text
}

/// `Arc::clone`: a second handle to the allocation that `handle` points at,
/// so both stand for the same value.
#[verifier::external_body]
fn share<T>(handle: &Arc<T>) -> (shared: Arc<T>)
    ensures
        shared == *handle,
{
    Arc::clone(handle)
}

impl Error {
    /// The backend that reported this failure.
    pub fn language(&self) -> (tag: Language)
        ensures
            tag == self@.language(),
    {
        match self {
            Error::Lua(_) => Language::Lua,
            Error::JavaScript(_) => Language::JavaScript,
        }
    }

    /// Renders the failure as the backend's name followed by the diagnostic
    /// in round brackets.
    pub fn to_string(&self) -> (text: String)
        ensures
            text@ == self@.rendering(),
    {
        match self {
            Error::Lua(native) => {
                let diagnostic = lua::describe(native);
                render(Language::Lua, diagnostic.as_str())
            },
            Error::JavaScript(message) => render(Language::JavaScript, message.as_str()),
        }
    }

    /// The failure behind this one. There never is one: a failure carries its
    /// backend's diagnostic and nothing else.
    pub fn source(&self) -> (cause: Option<&Error>)
        ensures
            cause is None,
    {
        None
    }
}

impl Clone for Error {
    /// Copies the failure. A Lua failure shares the interpreter's error with
    /// its copy; no backend runs again.
    fn clone(&self) -> (copy: Error)
        ensures
            copy == *self,
    {
        match self {
            Error::Lua(native) => Error::Lua(share(native)),
            Error::JavaScript(message) => Error::JavaScript(message.clone()),
        }
    }
}

impl From<lua::EvalError> for Error {
    /// Wraps the interpreter's error once, behind a shared handle.
    fn from(error: lua::EvalError) -> (failure: Error) {
        Error::Lua(Arc::new(error))
    }
}

impl FromSpecImpl<lua::EvalError> for Error {
    open spec fn obeys_from_spec() -> bool {
        true
    }

    open spec fn from_spec(error: lua::EvalError) -> Error {
        Error::Lua(Arc::new(error))
    }
}

impl From<js::EvalError> for Error {
    /// Wraps the JavaScript backend's message once, as owned text.
    fn from(message: js::EvalError) -> (failure: Error)
        ensures
            failure@ == ErrorView::JavaScript(message@),
    {
        Error::JavaScript(message.to_owned())
    }
}

impl FromSpecImpl<js::EvalError> for Error {
    open spec fn obeys_from_spec() -> bool {
        false
    }

    open spec fn from_spec(message: js::EvalError) -> Error {
        arbitrary()
    }
}

/// An evaluation outcome with its failure, if any, taken by its view.
pub open spec fn outcome_view<T>(outcome: Result<T>) -> core::result::Result<T, ErrorView> {
    match outcome {
        Ok(value) => Ok(value),
        Err(failure) => Err(failure@),
    }
}

/// What the dispatcher makes of an outcome of the Lua backend: a value
/// unchanged, a failure wrapped once and tagged `Lua`.
pub open spec fn normalized_lua<T>(outcome: lua::EvalResult<T>) -> core::result::Result<
    T,
    ErrorView,
> {
    match outcome {
        Ok(value) => Ok(value),
        Err(error) => Err(ErrorView::Lua(error)),
    }
}

/// What the dispatcher makes of an outcome of the JavaScript backend: a value
/// unchanged, a failure wrapped once and tagged `JavaScript`.
pub open spec fn normalized_js<T>(outcome: js::EvalResult<T>) -> core::result::Result<
    T,
    ErrorView,
> {
    match outcome {
        Ok(value) => Ok(value),
        Err(message) => Err(ErrorView::JavaScript(message@)),
    }
}

/// Turns an outcome of the Lua backend into the dispatcher's outcome.
pub fn normalize_lua<T>(outcome: lua::EvalResult<T>) -> (normalized: Result<T>)
    ensures
        outcome_view(normalized) == normalized_lua(outcome),
{
    match outcome {
        Ok(value) => Ok(value),
        Err(error) => Err(Error::from(error)),
    }
}

/// Turns an outcome of the JavaScript backend into the dispatcher's outcome.
pub fn normalize_js<T>(outcome: js::EvalResult<T>) -> (normalized: Result<T>)
    ensures
        outcome_view(normalized) == normalized_js(outcome),
{
    match outcome {
        Ok(value) => Ok(value),
        Err(message) => Err(Error::from(message)),
    }
}

/// Evaluates `script` on the backend for `language` and hands back a value of
/// the requested shape, or the backend's failure tagged with `language`.
///
/// JavaScript answers every script with the default value of `T`. For Lua the
/// interpreter decides; whatever it reports, a failure comes back tagged
/// `Lua`. Exactly one backend is called, once, and what a script writes to
/// standard output is neither captured nor held back.
pub fn eval<T: Evaluatable>(language: Language, script: &str) -> (outcome: Result<T>)
    ensures
        language == Language::JavaScript ==> (outcome matches Ok(value) && js::is_default(value)),
        language == Language::Lua ==> exists|native: lua::EvalResult<T>|
            call_ensures(lua::eval::<T>, (script,), native) && outcome_view(outcome)
                == normalized_lua(native),
        outcome matches Err(failure) ==> failure@.language() == language,
{
    match language {
        Language::Lua => normalize_lua(lua::eval(script)),
        Language::JavaScript => normalize_js(js::eval(script)),
    }
}

/// A failure that came out of a backend's outcome carries that backend's tag,
/// whatever the outcome was.
pub proof fn lemma_failure_tag_matches_backend<T>(
    from_lua: lua::EvalResult<T>,
    from_js: js::EvalResult<T>,
)
    ensures
        normalized_lua(from_lua) matches Err(failure) ==> failure.language() == Language::Lua,
        normalized_js(from_js) matches Err(failure) ==> failure.language() == Language::JavaScript,
{
}

/// A success of a backend stays a success with the same value, and a failure
/// stays a failure: normalising never turns one into the other.
pub proof fn lemma_normalizing_keeps_success_and_failure<T>(
    from_lua: lua::EvalResult<T>,
    from_js: js::EvalResult<T>,
)
    ensures
        from_lua matches Ok(value) ==> normalized_lua(from_lua) == Ok::<T, ErrorView>(value),
        from_js matches Ok(value) ==> normalized_js(from_js) == Ok::<T, ErrorView>(value),
        from_lua is Err <==> normalized_lua(from_lua) is Err,
        from_js is Err <==> normalized_js(from_js) is Err,
{
}

/// A rendered failure begins with the name of the backend that reported it,
/// and with the name of no other backend: the tag can be read back from the
/// text.
pub proof fn lemma_rendering_begins_with_backend_name(failure: ErrorView, language: Language)
    ensures
        language.spec_name().is_prefix_of(failure.rendering()) <==> language == failure.language(),
{
    reveal_strlit("Lua");
    reveal_strlit("JavaScript");
    let name = failure.language().spec_name();
    let text = failure.rendering();
    assert(text.subrange(0, name.len() as int) =~= name);
    if language.spec_name().is_prefix_of(text) {
        assert(text.subrange(0, language.spec_name().len() as int)[0] == text[0]);
    }
}

} // verus!
