//! Help texts of the bot's commands.
use crate::text::{append_str, str_eq, string_from_chars};
use vstd::prelude::*;

verus! {

/// The greeting, shown for `/start`.
pub const GREETING: &'static str = "\
Transfer files to Onedrive.

Forward or upload files to me, or pass message link to transfer restricted content from group or channel.

- /help: Ask for help.
";

/// Usage of `/auth`, `/clear` and `/autoDelete`.
pub const HELP_BASE: &'static str = "\
<pre><code>/auth</code></pre>
To authorize for Telegram and OneDrive.
<pre><code>/clear</code></pre>
To clear all history.
<pre><code>/autoDelete</code></pre>
To toggle whether bot should auto delete message.
";

/// Usage of `/links`.
pub const HELP_LINKS: &'static str = "\
<pre><code>/links $message_link $num</code></pre>
To transfer sequential restricted content.
<pre><code>/links help</code></pre>
To show command help.
";

/// Usage of `/url`.
pub const HELP_URL: &'static str = "\
<pre><code>/url $url</code></pre>
To upload file through url.
<pre><code>/url help</code></pre>
To show command help.
";

/// Usage of `/logs`.
pub const HELP_LOGS: &'static str = "\
<pre><code>/logs</code></pre>
To send logs zip.
<pre><code>/logs clear</code></pre>
To clear logs.
<pre><code>/logs help</code></pre>
To show command help.
";

/// Usage of `/drive`.
pub const HELP_DRIVE: &'static str = "\
<pre><code>/drive</code></pre>
To list all OneDrive accounts.
<pre><code>/drive add</code></pre>
To add a OneDrive account.
<pre><code>/drive $index</code></pre>
To change the OneDrive account.
<pre><code>/drive logout</code></pre>
To logout current OneDrive account.
<pre><code>/drive logout $index</code></pre>
To logout specified OneDrive account.
<pre><code>/drive help</code></pre>
To show command help.
";

/// Usage of `/dir`.
pub const HELP_DIR: &'static str = "\
<pre><code>/dir</code></pre>
To show current OneDrive directory.
<pre><code>/dir $path</code></pre>
To set OneDrive directory.
<pre><code>/dir temp $path</code></pre>
To set temporary OneDrive directory.
<pre><code>/dir temp cancel</code></pre>
To restore OneDrive directory to the previous one.
<pre><code>/dir reset</code></pre>
To reset OneDrive directory to default.
<pre><code>/dir help</code></pre>
To show command help.
";

/// How to use the bot, closing the full help.
pub const INSTRUCTION: &'static str = "\
- To transfer files, forward or upload to me.
- To transfer restricted content, right click the content, copy the message link, and send to me.
- Tap the file name on the Progress message to locate the job.
- To upload files through url, the headers of the file response must includes Content-Length.
- To cancel a job, delete the related message.
- Support files with extension .t2o as scripts.

See <a href=\"https://github.com/hlf20010508/telegram-onedrive#example\">example</a>.
";

/// The help text for the command `name` (empty for a command without one).
pub open spec fn help_text(name: Seq<char>) -> Seq<char> {
    if name == "/help"@ {
        HELP_BASE@ + HELP_LINKS@ + HELP_URL@ + HELP_LOGS@ + HELP_DRIVE@ + HELP_DIR@ + "\n"@
            + INSTRUCTION@
    } else if name == "/start"@ {
        GREETING@
    } else if name == "/links"@ {
        HELP_LINKS@
    } else if name == "/url"@ {
        HELP_URL@
    } else if name == "/logs"@ {
        HELP_LOGS@
    } else if name == "/drive"@ {
        HELP_DRIVE@
    } else if name == "/dir"@ {
        HELP_DIR@
    } else {
        seq![]
    }
}

/// The message for a command used the wrong way: the usage of `name`.
pub open spec fn unknown_command_help(name: Seq<char>) -> Seq<char> {
    "Unknown command for "@ + name + "\n\nUsage:\n"@ + help_text(name)
}

/// The help text for the command `name`.
pub fn format_help(name: &str) -> (r: String)
    ensures
        r@ == help_text(name@),
{
    let mut v: Vec<char> = Vec::new();
    if str_eq(name, "/help") {
        append_str(&mut v, HELP_BASE);
        append_str(&mut v, HELP_LINKS);
        append_str(&mut v, HELP_URL);
        append_str(&mut v, HELP_LOGS);
        append_str(&mut v, HELP_DRIVE);
        append_str(&mut v, HELP_DIR);
        append_str(&mut v, "\n");
        append_str(&mut v, INSTRUCTION);
        assert(v@ =~= help_text(name@));
    } else if str_eq(name, "/start") {
        append_str(&mut v, GREETING);
        assert(v@ =~= help_text(name@));
    } else if str_eq(name, "/links") {
        append_str(&mut v, HELP_LINKS);
        assert(v@ =~= help_text(name@));
    } else if str_eq(name, "/url") {
        append_str(&mut v, HELP_URL);
        assert(v@ =~= help_text(name@));
    } else if str_eq(name, "/logs") {
        append_str(&mut v, HELP_LOGS);
        assert(v@ =~= help_text(name@));
    } else if str_eq(name, "/drive") {
        append_str(&mut v, HELP_DRIVE);
        assert(v@ =~= help_text(name@));
    } else if str_eq(name, "/dir") {
        append_str(&mut v, HELP_DIR);
        assert(v@ =~= help_text(name@));
    } else {
        assert(v@ =~= help_text(name@));
    }
    string_from_chars(v)
}

/// The message for a command used the wrong way: the usage of `name`.
pub fn format_unknown_command_help(name: &str) -> (r: String)
    ensures
        r@ == unknown_command_help(name@),
{
    let mut v: Vec<char> = Vec::new();
    append_str(&mut v, "Unknown command for ");
    append_str(&mut v, name);
    append_str(&mut v, "\n\nUsage:\n");
    let help = format_help(name);
    append_str(&mut v, help.as_str());
    assert(v@ =~= unknown_command_help(name@));
    string_from_chars(v)
}

} // verus!
