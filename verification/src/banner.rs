//! The banner shown at the top of a new chat: the logo, the provider and
//! model in use, the working directory, and the main keys.

use vstd::prelude::*;
use crate::text::{append_str, chars_to_string, str_chars};

verus! {

/// The logo's first lines, up to where the provider goes.
pub open spec fn banner_head() -> Seq<char> {
    "\n ██╗     ██╗   ██╗██╗  ██╗ █████╗ ███╗   ██╗\n ██║     ██║   ██║██║ ██╔╝██╔══██╗████╗  ██║   AI Agent CLI\n ██║     ██║   ██║█████╔╝ ███████║██╔██╗ ██║   "@
}

/// The logo's middle lines, between the model and the directory.
pub open spec fn banner_middle() -> Seq<char> {
    "\n ██║     ██║   ██║██╔═██╗ ██╔══██║██║╚██╗██║\n ███████╗╚██████╔╝██║  ██╗██║  ██║██║ ╚████║   "@
}

/// The logo's last line and the key list.
pub open spec fn banner_tail() -> Seq<char> {
    "\n ╚══════╝ ╚═════╝ ╚═╝  ╚═╝╚═╝  ╚═╝╚═╝  ╚═══╝\n\n /model  Switch model    /resume  Sessions    /bg  Background    /clear  Clear    Alt+B  Background cmd    Alt+E  Events    Alt+L  Events    Alt+M  Memory    Alt+P  Tools    Alt+S  Subagents    Alt+T  Tasks    Shift+Tab  Mode    Ctrl+C  Quit"@
}

/// The banner for a provider, a model and a working directory.
pub open spec fn welcome_banner(provider: Seq<char>, model: Seq<char>, cwd: Seq<char>) -> Seq<char> {
    banner_head() + provider + " > "@ + model + banner_middle() + cwd + banner_tail()
}

/// Builds the welcome banner (see `welcome_banner`).
pub fn build_welcome_banner(provider: &str, model: &str, cwd: &str) -> (r: String)
    ensures
        r@ == welcome_banner(provider@, model@, cwd@),
{
    let mut out = str_chars("\n ██╗     ██╗   ██╗██╗  ██╗ █████╗ ███╗   ██╗\n ██║     ██║   ██║██║ ██╔╝██╔══██╗████╗  ██║   AI Agent CLI\n ██║     ██║   ██║█████╔╝ ███████║██╔██╗ ██║   ");
    append_str(&mut out, provider);
    append_str(&mut out, " > ");
    append_str(&mut out, model);
    append_str(&mut out, "\n ██║     ██║   ██║██╔═██╗ ██╔══██║██║╚██╗██║\n ███████╗╚██████╔╝██║  ██╗██║  ██║██║ ╚████║   ");
    append_str(&mut out, cwd);
    append_str(&mut out, "\n ╚══════╝ ╚═════╝ ╚═╝  ╚═╝╚═╝  ╚═╝╚═╝  ╚═══╝\n\n /model  Switch model    /resume  Sessions    /bg  Background    /clear  Clear    Alt+B  Background cmd    Alt+E  Events    Alt+L  Events    Alt+M  Memory    Alt+P  Tools    Alt+S  Subagents    Alt+T  Tasks    Shift+Tab  Mode    Ctrl+C  Quit");
    chars_to_string(&out)
}

} // verus!
