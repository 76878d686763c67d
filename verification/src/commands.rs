//! What the output of the commands `wg`, `wg-quick` and `id` means.

use crate::text::{blank, is_white_space, law_readable, law_trimmed_keeps_the_text};
use crate::text::{distinct_words, lossy_text, readable, texts, trim, trimmed, words};
use vstd::prelude::*;
use vstd::utf8::*;

verus! {

/// A command that ran to its end.
#[derive(Debug)]
pub struct CommandOutput {
    pub success: bool,
    pub stdout: Vec<u8>,
    pub stderr: Vec<u8>,
}

/// What a `CommandOutput` holds.
pub struct OutputModel {
    pub success: bool,
    pub stdout: Seq<u8>,
    pub stderr: Seq<u8>,
}

impl View for CommandOutput {
    type V = OutputModel;

    open spec fn view(&self) -> OutputModel {
        OutputModel { success: self.success, stdout: self.stdout@, stderr: self.stderr@ }
    }
}

/// What came of starting a command: its output, or why it did not start.
pub open spec fn output_result(r: Result<CommandOutput, String>) -> Result<
    OutputModel,
    Seq<char>,
> {
    match r {
        Ok(o) => Ok(o@),
        Err(e) => Err(e@),
    }
}

/// What `wg-quick` did, as far as the user is told.
pub open spec fn wg_quick_outcome(
    action: Seq<char>,
    subject: Seq<char>,
    ran: Result<OutputModel, Seq<char>>,
) -> Result<(), Seq<char>> {
    match ran {
        Ok(output) => if output.success {
            Ok(())
        } else {
            Err(wg_quick_failure(action, subject, readable(output.stderr)))
        },
        Err(e) => Err("Failed to start wg-quick: "@ + e),
    }
}

/// Why `wg-quick` failed: in its own words where it had any.
pub open spec fn wg_quick_failure(
    action: Seq<char>,
    subject: Seq<char>,
    complaint: Seq<char>,
) -> Seq<char> {
    if trimmed(complaint).len() == 0 {
        "wg-quick "@ + action + " failed for "@ + subject
    } else {
        "wg-quick "@ + action + " failed: "@ + trimmed(complaint)
    }
}

/// The message for a failed `wg-quick` that wrote `complaint`.
pub fn wg_quick_failure_message(action: &str, subject: &str, complaint: &str) -> (res: String)
    ensures
        res@ == wg_quick_failure(action@, subject@, complaint@),
{
    let message = trim(complaint);
    if message.is_empty() {
        "wg-quick ".to_owned().concat(action).concat(" failed for ").concat(subject)
    } else {
        "wg-quick ".to_owned().concat(action).concat(" failed: ").concat(message)
    }
}

/// Reads off whether `wg-quick` succeeded, and why not.
pub fn judge_wg_quick(action: &str, subject: &str, ran: Result<CommandOutput, String>) -> (res:
    Result<(), String>)
    ensures
        crate::protocol::unit_result(res) == wg_quick_outcome(action@, subject@, output_result(ran)),
{
    match ran {
        Ok(output) => if output.success {
            Ok(())
        } else {
            let complaint = lossy_text(output.stderr.as_slice());
            Err(wg_quick_failure_message(action, subject, &complaint))
        },
        Err(e) => Err("Failed to start wg-quick: ".to_owned().concat(&e)),
    }
}

/// Whether what `id -u` wrote is the user id of root.
pub open spec fn names_root(text: Seq<char>) -> bool {
    trimmed(text) == "0"@
}

/// Whether `id -u` ran, succeeded and named root.
pub open spec fn is_root(ran: Result<OutputModel, Seq<char>>) -> bool {
    match ran {
        Ok(output) => output.success && names_root(readable(output.stdout)),
        Err(_) => false,
    }
}

/// Reads the user id that `id -u` wrote.
pub fn root_user_id(text: &str) -> (res: bool)
    ensures
        res == names_root(text@),
{
    let id = trim(text).to_owned();
    id == "0".to_owned()
}

/// Whether this process has root's privileges, by the output of `id -u`.
pub fn is_effective_root(ran: Result<CommandOutput, String>) -> (res: bool)
    ensures
        res == is_root(output_result(ran)),
{
    match ran {
        Ok(output) => output.success && root_user_id(&lossy_text(output.stdout.as_slice())),
        Err(_) => false,
    }
}

/// The interfaces that are up, by the output of `wg show interfaces`: none
/// where the command did not start or failed.
pub open spec fn interfaces_up(ran: Result<OutputModel, Seq<char>>) -> Set<Seq<char>> {
    match ran {
        Ok(output) => if output.success {
            words(readable(output.stdout)).to_set()
        } else {
            Set::empty()
        },
        Err(_) => Set::empty(),
    }
}

/// Reads the interfaces that are up, each once.
pub fn active_interfaces(ran: Result<CommandOutput, String>) -> (res: Vec<String>)
    ensures
        texts(res@).no_duplicates(),
        texts(res@).to_set() == interfaces_up(output_result(ran)),
{
    match ran {
        Ok(output) if output.success => distinct_words(&lossy_text(output.stdout.as_slice())),
        _ => {
            let none: Vec<String> = Vec::new();
            assert(texts(none@).to_set() =~= Set::<Seq<char>>::empty());
            none
        },
    }
}

/// Root is whom a successful `id -u` calls 0, with nothing but white space around
/// it.
pub proof fn law_root(
    ran: Result<OutputModel, Seq<char>>,
    before: Seq<char>,
    after: Seq<char>,
    success: bool,
    stderr: Seq<u8>,
)
    ensures
        is_root(ran) <==> (ran matches Ok(output) && output.success && trimmed(
            readable(output.stdout),
        ) == seq!['0']),
        blank(before) && blank(after) ==> (is_root(
            Ok(OutputModel { success, stdout: encode_utf8(before + seq!['0'] + after), stderr }),
        ) <==> success),
{
    reveal_strlit("0");
    assert("0"@ =~= seq!['0']);
    if blank(before) && blank(after) {
        assert(!is_white_space('0'));
        law_trimmed_keeps_the_text(before, seq!['0'], after);
        law_readable(before + seq!['0'] + after, Seq::empty());
    }
}

/// The interfaces that are up are the words that a successful `wg show interfaces`
/// wrote. Where it failed or did not start there are none.
pub proof fn law_interfaces(ran: Result<OutputModel, Seq<char>>, name: Seq<char>)
    ensures
        interfaces_up(ran).contains(name) <==> (ran matches Ok(output) && output.success && words(
            readable(output.stdout),
        ).contains(name)),
{
}

/// `wg-quick` succeeded iff it started and says so. Otherwise the message is why it
/// did not start, or what it complained about, or what it failed for.
pub proof fn law_wg_quick_messages(
    action: Seq<char>,
    subject: Seq<char>,
    ran: Result<OutputModel, Seq<char>>,
)
    ensures
        match (ran, wg_quick_outcome(action, subject, ran)) {
            (Err(e), outcome) => outcome matches Err(message) && message
                == "Failed to start wg-quick: "@ + e,
            (Ok(output), Ok(_)) => output.success,
            (Ok(output), Err(message)) => !output.success && {
                let complaint = trimmed(readable(output.stderr));
                if complaint.len() > 0 {
                    message == "wg-quick "@ + action + " failed: "@ + complaint
                } else {
                    message == "wg-quick "@ + action + " failed for "@ + subject
                }
            },
        },
{
}

/// What `is_effective_root` and `active_interfaces` return: whether a successful
/// command wrote 0, and the words that a successful command wrote, each once.
pub proof fn law_outputs_read(
    id: Result<CommandOutput, String>,
    root: bool,
    ran: Result<CommandOutput, String>,
    up: Vec<String>,
    name: Seq<char>,
)
    requires
        call_ensures(is_effective_root, (id,), root),
        call_ensures(active_interfaces, (ran,), up),
    ensures
        root <==> (id matches Ok(output) && output.success && trimmed(readable(output.stdout@))
            == seq!['0']),
        (exists|k: int| 0 <= k < up@.len() && (#[trigger] up@[k])@ == name) <==> (ran matches Ok(
            output,
        ) && output.success && words(readable(output.stdout@)).contains(name)),
{
    law_root(output_result(id), Seq::empty(), Seq::empty(), true, Seq::empty());
    law_interfaces(output_result(ran), name);
    let list = texts(up@);
    if list.to_set().contains(name) {
        let k = choose|k: int| 0 <= k < list.len() && list[k] == name;
        assert(up@[k]@ == name);
    }
    if exists|k: int| 0 <= k < up@.len() && (#[trigger] up@[k])@ == name {
        let k = choose|k: int| 0 <= k < up@.len() && (#[trigger] up@[k])@ == name;
        assert(list[k] == name);
    }
}

} // verus!
