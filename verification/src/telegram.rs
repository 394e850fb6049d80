//! The remote-command monitor: an authenticated command channel carries
//! short slash commands; the trigger command fires only on an exact match
//! of both the command name and its secret parameter.
//!
//! The channel transport stays outside; each inbound message's text is
//! parsed and matched here. The grammar is the three verbs the system
//! understands: the trigger command with its parameter, and the heartbeat
//! monitor's reset and status verbs.

use vstd::prelude::*;

verus! {

use vstd::string::StrSliceExecFns;
use vstd::string::StringExecFns;
use crate::config::Config;

/// A parsed inbound command.
#[derive(Clone, Debug, PartialEq, Eq)]
pub enum BotCommand {
    /// The trigger verb, with the parameter text that followed it.
    Dms(String),
    /// The heartbeat reset verb.
    Alive,
    /// The heartbeat status verb.
    Status,
}

/// The parameter text the trigger verb carries, if `t` spells the trigger
/// verb: the bare verb carries the empty parameter, the verb followed by a
/// space carries everything after that space.
pub open spec fn dms_payload(t: Seq<char>) -> Option<Seq<char>> {
    if t == "/dms"@ {
        Some(Seq::<char>::empty())
    } else if t.len() >= 5 && t.subrange(0, 5) == "/dms "@ {
        Some(t.skip(5))
    } else {
        None
    }
}

/// Exact text equality.
pub fn str_eq(a: &str, b: &str) -> (r: bool)
    ensures
        r == (a@ == b@),
{
    let na = a.unicode_len();
    let nb = b.unicode_len();
    if na != nb {
        return false;
    }
    let mut x: usize = 0;
    while x < na
        invariant
            na == a@.len(),
            na == b@.len(),
            x <= na,
            forall|y: int| 0 <= y < x ==> #[trigger] a@[y] == b@[y],
        decreases na - x,
    {
        if a.get_char(x) as u32 != b.get_char(x) as u32 {
            return false;
        }
        x = x + 1;
    }
    proof {
        assert(a@ =~= b@);
    }
    true
}

/// Parse one message's text into a command. Exactly the three verbs are
/// understood, lower-case, at the start of the text; anything else is not
/// a command.
pub fn parse_command(text: &str) -> (r: Option<BotCommand>)
    ensures
        text@ == "/alive"@ ==> r == Some(BotCommand::Alive),
        text@ == "/status"@ ==> r == Some(BotCommand::Status),
        dms_payload(text@) matches Some(p) ==> (r matches Some(c) && (c matches BotCommand::Dms(
            arg,
        ) && arg@ == p)),
        r is None <==> (text@ != "/alive"@ && text@ != "/status"@ && dms_payload(text@) is None),
        r == Some(BotCommand::Alive) ==> text@ == "/alive"@,
        r == Some(BotCommand::Status) ==> text@ == "/status"@,
        r matches Some(c) ==> (c matches BotCommand::Dms(arg) ==> dms_payload(text@) == Some(
            arg@,
        )),
{
    proof {
        reveal_strlit("/alive");
        reveal_strlit("/status");
        reveal_strlit("/dms");
        reveal_strlit("/dms ");
    }
    if str_eq(text, "/alive") {
        proof {
            assert(dms_payload(text@) is None) by {
                if text@.len() >= 5 && text@.subrange(0, 5) == "/dms "@ {
                    assert(text@.subrange(0, 5)[1] == text@[1]);
                }
            }
        }
        return Some(BotCommand::Alive);
    }
    if str_eq(text, "/status") {
        proof {
            assert(dms_payload(text@) is None) by {
                if text@.len() >= 5 && text@.subrange(0, 5) == "/dms "@ {
                    assert(text@.subrange(0, 5)[1] == text@[1]);
                }
            }
        }
        return Some(BotCommand::Status);
    }
    if str_eq(text, "/dms") {
        return Some(BotCommand::Dms(String::new()));
    }
    let n = text.unicode_len();
    if n >= 5 {
        let head = text.substring_char(0, 5);
        if str_eq(head, "/dms ") {
            let arg = text.substring_char(5, n);
            proof {
                assert(text@.subrange(5, n as int) =~= text@.skip(5));
            }
            return Some(BotCommand::Dms(String::from_str(arg)));
        }
    }
    None
}

pub struct TelegramListener {
    expected_param: String,
    fired: bool,
}

impl TelegramListener {
    /// The configured secret parameter.
    pub closed spec fn expected_param(&self) -> Seq<char> {
        self.expected_param@
    }

    /// Whether the monitor has already fired (it fires at most once).
    pub closed spec fn has_fired(&self) -> bool {
        self.fired
    }

    pub fn new(config: &Config) -> (r: TelegramListener)
        ensures
            r.expected_param() == config.telegram_command@,
            !r.has_fired(),
    {
        TelegramListener { expected_param: config.telegram_command.clone(), fired: false }
    }

    /// The trigger verb arrived with `param`. Fires exactly when the
    /// parameter equals the configured secret exactly and the monitor has
    /// not already fired: a wrong parameter never fires, a right one fires
    /// exactly once.
    pub fn on_command(&mut self, param: &str) -> (r: bool)
        ensures
            final(self).expected_param() == old(self).expected_param(),
            r == (!old(self).has_fired() && param@ == old(self).expected_param()),
            final(self).has_fired() == (old(self).has_fired() || r),
    {
        let matched = str_eq(param, self.expected_param.as_str());
        if !self.fired && matched {
            self.fired = true;
            true
        } else {
            false
        }
    }
}

} // verus!
