//! What the user asked for, and how an answer to the overwrite question is
//! read.
use vstd::prelude::*;

verus! {

/// What to do in one run.
#[derive(Debug, Clone)]
pub enum Action {
    /// Show every stored configuration.
    List,
    /// Show the identity of the connected displays.
    ShowConnected,
    /// Save the current layout as the default for the connected displays.
    Save,
    /// Save the current layout under a name.
    SaveCustom(String),
    /// Apply the default configuration for the connected displays.
    SetDefault,
    /// Apply the configuration of a name.
    SetCustom(String),
    /// Keep applying default configurations as displays come and go.
    RunContinuous,
    /// Nothing that was understood.
    Invalid,
}

impl Default for Action {
    fn default() -> (r: Action)
        ensures
            r is Invalid,
    {
        Action::Invalid
    }
}

/// One run's request: the action and, where given, the path of the file that
/// holds the configurations.
#[derive(Debug, Clone)]
pub struct UserCommand {
    pub action: Action,
    pub config_file_path: Option<String>,
}

impl Default for UserCommand {
    fn default() -> (r: UserCommand)
        ensures
            r.action is Invalid,
            r.config_file_path is None,
    {
        UserCommand { action: Action::Invalid, config_file_path: None }
    }
}

/// The text with leading and trailing white space removed.
pub uninterp spec fn trimmed(s: Seq<char>) -> Seq<char>;

/// The text in lower case.
pub uninterp spec fn lowercased(s: Seq<char>) -> Seq<char>;

/// Relies on `str::trim`: the text without leading and trailing white space,
/// which depends on the text alone.
#[verifier::external_body]
fn trim_text(s: &str) -> (r: &str)
    ensures
        r@ == trimmed(s@),
{
    s.trim()
}

/// Relies on `str::to_lowercase`: the lower-case text, which depends on the
/// text alone.
#[verifier::external_body]
fn lowercase_text(s: &str) -> (r: String)
    ensures
        r@ == lowercased(s@),
{
    s.to_lowercase()
}

/// Whether a trimmed, lower-case answer says yes: `y` or `yes`.
pub open spec fn says_yes(folded: Seq<char>) -> bool {
    folded == "y"@ || folded == "yes"@
}

/// Whether the trimmed, lower-case answer `folded` says yes.
pub fn is_yes(folded: &String) -> (r: bool)
    ensures
        r == says_yes(folded@),
{
    let y = String::from_str("y");
    let yes = String::from_str("yes");
    *folded == y || *folded == yes
}

/// Whether the line `answer` confirms an overwrite: it says `y` or `yes` in
/// any case, with any white space around it.
pub fn confirms_overwrite(answer: &String) -> (r: bool)
    ensures
        r == says_yes(lowercased(trimmed(answer@))),
{
    let folded = lowercase_text(trim_text(answer.as_str()));
    is_yes(&folded)
}

} // verus!
