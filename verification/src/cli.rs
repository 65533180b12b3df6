//! The command-line surface: the parsed arguments and the rule that turns
//! the trailing words and piped input into the prompt text.

use vstd::prelude::*;
use vstd::string::{StringExecFns, StrSliceExecFns};
use crate::chars::{str_to_chars, chars_to_string};
use crate::urlq::{join_scopes, join_scopes_exec};

verus! {

/// What `shell_words::quote` makes of a word: its shell-safe form, named
/// rather than spelled out.
pub uninterp spec fn shell_quote_of(s: Seq<char>) -> Seq<char>;

/// Relies on `shell_words::quote`: the result depends on the word alone.
#[verifier::external_body]
fn shell_quote(s: &str) -> (r: String)
    ensures
        r@ == shell_quote_of(s@),
{
    shell_words::quote(s).into_owned()
}

/// The words in their shell-safe forms.
pub open spec fn quoted_views(words: Seq<Seq<char>>) -> Seq<Seq<char>> {
    words.map_values(|w: Seq<char>| shell_quote_of(w))
}

/// The prompt text: nothing without words or piped input; piped input alone
/// when there are no words; for a macro the shell-quoted words, with piped
/// input after ` -- `; otherwise the words joined by spaces, with piped
/// input on its own line.
pub open spec fn composed_text(
    words: Seq<Seq<char>>,
    stdin_text: Seq<char>,
    is_macro: bool,
) -> Option<Seq<char>> {
    if words.len() == 0 {
        if stdin_text.len() == 0 {
            None
        } else {
            Some(stdin_text)
        }
    } else if is_macro {
        let t = join_scopes(quoted_views(words));
        if stdin_text.len() == 0 {
            Some(t)
        } else {
            Some(t + " -- "@ + stdin_text)
        }
    } else {
        let t = join_scopes(words);
        if stdin_text.len() == 0 {
            Some(t)
        } else {
            Some(t + "\n"@ + stdin_text)
        }
    }
}

/// The subcommands under `auth`.
pub enum AuthSubcommands {
    /// Log in with OAuth.
    Login,
    /// Manage Google Cloud OAuth configurations.
    ManageGoogleOAuth,
    /// Manage Google Cloud OAuth client configurations.
    ManageGoogleOAuthClient,
    /// Log in with Google Gemini OAuth.
    GeminiLogin,
    /// Copy a client-secret file into the named client's configuration.
    ImportSecrets { file: String, client: String },
}

/// The `auth` command and its subcommand.
pub struct AuthCommands {
    pub command: AuthSubcommands,
}

/// The commands of the program.
pub enum Commands {
    Auth(AuthCommands),
}

/// The parsed command line.
pub struct Cli {
    pub command: Option<Commands>,
    pub model: Option<String>,
    pub prompt: Option<String>,
    pub role: Option<String>,
    pub session: Option<Option<String>>,
    pub empty_session: bool,
    pub save_session: bool,
    pub agent: Option<String>,
    pub agent_variable: Vec<String>,
    pub rag: Option<String>,
    pub rebuild_rag: bool,
    pub macro_name: Option<String>,
    pub serve: Option<Option<String>>,
    pub execute: bool,
    pub code: bool,
    pub file: Vec<String>,
    pub no_stream: bool,
    pub dry_run: bool,
    pub info: bool,
    pub sync_models: bool,
    pub list_models: bool,
    pub list_roles: bool,
    pub list_sessions: bool,
    pub list_agents: bool,
    pub list_rags: bool,
    pub list_macros: bool,
    pub text: Vec<String>,
}

impl Cli {
    /// The prompt text of this invocation, given what was piped in.
    pub fn text(&self, stdin_text: &str) -> (r: Option<String>)
        ensures
            match composed_text(self.text.deep_view(), stdin_text@, self.macro_name is Some) {
                Some(t) => r is Some && r->Some_0@ == t,
                None => r is None,
            },
    {
        let stdin_len = stdin_text.unicode_len();
        if self.text.len() == 0 {
            if stdin_len == 0 {
                return None;
            }
            return Some(String::from_str(stdin_text));
        }
        let joined = if self.macro_name.is_some() {
            let mut quoted: Vec<String> = Vec::new();
            let mut k: usize = 0;
            proof {
                assert(quoted.deep_view() =~= quoted_views(self.text.deep_view().take(0)));
            }
            while k < self.text.len()
                invariant
                    k <= self.text@.len(),
                    self.text.deep_view().len() == self.text@.len(),
                    forall|m: int|
                        0 <= m < self.text@.len() ==> self.text.deep_view()[m]
                            == #[trigger] self.text@[m]@,
                    quoted.deep_view() == quoted_views(self.text.deep_view().take(k as int)),
                decreases self.text@.len() - k,
            {
                let ghost before = quoted.deep_view();
                quoted.push(shell_quote(self.text[k].as_str()));
                proof {
                    let dv = self.text.deep_view();
                    assert(quoted.deep_view() =~= before.push(shell_quote_of(dv[k as int])));
                    assert(quoted_views(dv.take(k + 1)) =~= quoted_views(dv.take(k as int)).push(
                        shell_quote_of(dv[k as int]),
                    ));
                }
                k = k + 1;
            }
            proof {
                assert(self.text.deep_view().take(self.text@.len() as int) =~= self.text.deep_view());
            }
            join_scopes_exec(&quoted)
        } else {
            join_scopes_exec(&self.text)
        };
        if stdin_len == 0 {
            Some(joined)
        } else {
            let mut out: Vec<char> = str_to_chars(joined.as_str());
            if self.macro_name.is_some() {
                crate::json::push_str_chars(&mut out, " -- ");
            } else {
                crate::json::push_str_chars(&mut out, "\n");
            }
            let mut sv = str_to_chars(stdin_text);
            out.append(&mut sv);
            Some(chars_to_string(&out))
        }
    }
}

} // verus!
