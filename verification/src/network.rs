//! The network monitor: listens for inbound datagrams and fires once when
//! a received payload equals the configured trigger phrase, compared
//! case-insensitively over ASCII letters.
//!
//! The socket work stays outside; each received payload is handed in here
//! as text and every decision is made by this state machine.

use vstd::prelude::*;

verus! {

use vstd::string::StrSliceExecFns;
use vstd::string::StringExecFns;
use crate::config::Config;

/// The codepoint of `c` with an ASCII capital letter folded to its small
/// form; every other character is left as it is.
pub open spec fn ascii_lower_code(c: char) -> u32 {
    if 65 <= c as u32 && c as u32 <= 90 {
        (c as u32 + 32) as u32
    } else {
        c as u32
    }
}

/// `a` and `b` are equal ignoring ASCII case: the same length, and at each
/// position the same character up to ASCII case folding.
pub open spec fn eq_ignore_ascii_case(a: Seq<char>, b: Seq<char>) -> bool {
    &&& a.len() == b.len()
    &&& forall|x: int| 0 <= x < a.len() ==> ascii_lower_code(#[trigger] a[x]) == ascii_lower_code(
        b[x],
    )
}

/// Compare two texts ignoring ASCII case.
pub fn str_eq_ignore_ascii_case(a: &str, b: &str) -> (r: bool)
    ensures
        r == eq_ignore_ascii_case(a@, b@),
{
    let na = a.unicode_len();
    let nb = b.unicode_len();
    if na != nb {
        return false;
    }
    let mut x: usize = 0;
    while x < na
        invariant
            na == a@.len(),
            na == b@.len(),
            x <= na,
            forall|y: int| 0 <= y < x ==> ascii_lower_code(#[trigger] a@[y]) == ascii_lower_code(
                b@[y],
            ),
        decreases na - x,
    {
        let ca = a.get_char(x) as u32;
        let cb = b.get_char(x) as u32;
        let la = if ca >= 65 && ca <= 90 {
            ca + 32
        } else {
            ca
        };
        let lb = if cb >= 65 && cb <= 90 {
            cb + 32
        } else {
            cb
        };
        if la != lb {
            return false;
        }
        x = x + 1;
    }
    true
}

/// The listening address the monitor binds: every interface, the
/// configured port.
pub fn bind_addr_text(port: u16) -> (r: String)
    ensures
        r@ == "0.0.0.0:"@ + crate::ipv4::dec_text(port as int),
{
    let mut out = String::from_str("0.0.0.0:");
    crate::ipv4::push_decimal(&mut out, port as u64);
    out
}

/// The address the trigger-phrase broadcast is sent to: the local subnet's
/// broadcast address, the configured port.
pub fn broadcast_addr_text(port: u16) -> (r: String)
    ensures
        r@ == "255.255.255.255:"@ + crate::ipv4::dec_text(port as int),
{
    let mut out = String::from_str("255.255.255.255:");
    crate::ipv4::push_decimal(&mut out, port as u64);
    out
}

pub struct NetworkListener {
    message: String,
    fired: bool,
}

impl NetworkListener {
    /// The configured trigger phrase.
    pub closed spec fn message(&self) -> Seq<char> {
        self.message@
    }

    /// Whether the monitor has already fired (it fires at most once).
    pub closed spec fn has_fired(&self) -> bool {
        self.fired
    }

    pub fn new(config: &Config) -> (r: NetworkListener)
        ensures
            r.message() == config.broadcast_message@,
            !r.has_fired(),
    {
        NetworkListener { message: config.broadcast_message.clone(), fired: false }
    }

    /// One received payload. Fires exactly when the payload equals the
    /// trigger phrase ignoring ASCII case and the monitor has not already
    /// fired: at most one fire over its lifetime.
    pub fn on_datagram(&mut self, payload: &str) -> (r: bool)
        ensures
            final(self).message() == old(self).message(),
            r == (!old(self).has_fired() && eq_ignore_ascii_case(payload@, old(self).message())),
            final(self).has_fired() == (old(self).has_fired() || r),
    {
        let matched = str_eq_ignore_ascii_case(payload, self.message.as_str());
        if !self.fired && matched {
            self.fired = true;
            true
        } else {
            false
        }
    }
}

} // verus!
