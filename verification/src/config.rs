//! Validated, immutable configuration, constructed once before any monitor
//! starts and shared by all of them.
//!
//! Construction enforces the configuration invariants: a positive heartbeat
//! timeout, an unprivileged broadcast port, and a button-hub address in
//! dotted-quad form — where the given address text is not well formed, one
//! is derived from the machine's own primary address by substituting a fixed
//! last octet (a deliberate convenience fallback).

use vstd::prelude::*;

verus! {

use vstd::string::StringExecFns;
use vstd::string::StrSliceExecFns;
use crate::error::DmsError;
use crate::ipv4::{Ipv4Addr, is_valid_ipv4, represents, parse_ipv4, format_ipv4};

/// The last octet substituted when the button-hub address is derived from
/// the machine's own address.
pub const DERIVED_LAST_OCTET: u8 = 242;

#[derive(Clone, Debug)]
pub struct Config {
    pub telegram_bot_token: String,
    /// Seconds without a heartbeat before the timeout monitor fires.
    pub telegram_heartbeat_timeout: u64,
    pub broadcast_port: u16,
    pub broadcast_message: String,
    pub telegram_command: String,
    pub usb_vendor_id: u16,
    pub usb_product_id: u16,
    pub flic_ip: String,
    pub flic_port: u16,
}

/// `s` is dotted-quad text whose last octet is the fixed derived value.
pub open spec fn derived_address(s: Seq<char>) -> bool {
    exists|ip: Ipv4Addr| #[trigger] represents(s, ip) && ip.d == DERIVED_LAST_OCTET
}

impl Config {
    /// The configuration invariants every constructed value satisfies.
    pub open spec fn wf(&self) -> bool {
        &&& self.telegram_heartbeat_timeout > 0
        &&& self.broadcast_port >= 1024
        &&& is_valid_ipv4(self.flic_ip@)
    }

    /// Validate and construct. A zero heartbeat timeout (it would fire
    /// immediately) and a privileged broadcast port are rejected. Button-hub
    /// address text that is not dotted-quad form is replaced by a derived
    /// address; only a failed derivation is then an error.
    pub fn new(
        telegram_bot_token: String,
        telegram_heartbeat_timeout: u64,
        broadcast_port: u16,
        broadcast_message: String,
        telegram_command: String,
        usb_vendor_id: u16,
        usb_product_id: u16,
        flic_ip: String,
        flic_port: u16,
    ) -> (r: Result<Config, DmsError>)
        ensures
            r matches Ok(c) ==> {
                &&& c.wf()
                &&& c.telegram_bot_token == telegram_bot_token
                &&& c.telegram_heartbeat_timeout == telegram_heartbeat_timeout
                &&& c.broadcast_port == broadcast_port
                &&& c.broadcast_message == broadcast_message
                &&& c.telegram_command == telegram_command
                &&& c.usb_vendor_id == usb_vendor_id
                &&& c.usb_product_id == usb_product_id
                &&& c.flic_port == flic_port
                &&& (is_valid_ipv4(flic_ip@) ==> c.flic_ip == flic_ip)
                &&& (!is_valid_ipv4(flic_ip@) ==> derived_address(c.flic_ip@))
            },
            r is Err ==> (telegram_heartbeat_timeout == 0 || broadcast_port < 1024
                || !is_valid_ipv4(flic_ip@)),
            telegram_heartbeat_timeout == 0 ==> r is Err,
            broadcast_port < 1024 ==> r is Err,
            r matches Err(e) ==> e is Config,
    {
        if telegram_heartbeat_timeout == 0 {
            return Err(DmsError::Config(String::from_str("heartbeat timeout must be positive")));
        }
        if broadcast_port < 1024 {
            return Err(DmsError::Config(String::from_str("broadcast port must be unprivileged")));
        }
        let checked_ip: String = if parse_ipv4(flic_ip.as_str()).is_some() {
            flic_ip
        } else {
            match auto_detect_flic_ip() {
                Ok(derived) => derived,
                Err(e) => {
                    return Err(e);
                },
            }
        };
        Ok(
            Config {
                telegram_bot_token,
                telegram_heartbeat_timeout,
                broadcast_port,
                broadcast_message,
                telegram_command,
                usb_vendor_id,
                usb_product_id,
                flic_ip: checked_ip,
                flic_port,
            },
        )
    }

    /// The stock configuration. Its address field is a non-address
    /// placeholder, so construction takes the derived path and succeeds
    /// exactly where derivation does.
    pub fn default() -> (r: Result<Config, DmsError>)
        ensures
            r matches Ok(c) ==> {
                &&& c.wf()
                &&& c.telegram_bot_token@ == "TELEGRAM_BOT_TOKEN"@
                &&& has_placeholder(c.telegram_bot_token@)
                &&& c.telegram_heartbeat_timeout == 30
                &&& c.broadcast_port == 45370
                &&& c.broadcast_message@ == "trigger_dms"@
                &&& c.telegram_command@ == "execute"@
                &&& c.usb_vendor_id == 0x090c
                &&& c.usb_product_id == 0x1000
                &&& c.flic_port == 5551
                &&& derived_address(c.flic_ip@)
            },
            r matches Err(e) ==> e is Config,
    {
        proof {
            lemma_auto_text_not_ipv4();
            lemma_stock_token_is_placeholder();
        }
        Config::new(
            String::from_str("TELEGRAM_BOT_TOKEN"),
            30,
            45370,
            String::from_str("trigger_dms"),
            String::from_str("execute"),
            0x090c,
            0x1000,
            String::from_str("auto"),
            5551,
        )
    }
}

/// Derive the control endpoint from address text: keep the text's first
/// three octets and substitute the fixed last one. Succeeds exactly on
/// well-formed dotted-quad text, and then returns text spelling the
/// substituted address — so whichever address the machine's lookup hands
/// over, the derived endpoint sits on that machine's own /24 network.
pub fn derive_from_text(text: &str) -> (r: Result<String, DmsError>)
    ensures
        r is Ok <==> is_valid_ipv4(text@),
        r matches Ok(s) ==> derived_address(s@),
        r matches Ok(s) ==> (forall|ip: Ipv4Addr| represents(text@, ip) ==> represents(
            s@,
            (Ipv4Addr { a: ip.a, b: ip.b, c: ip.c, d: DERIVED_LAST_OCTET }),
        )),
        r matches Err(e) ==> e is Config,
{
    match parse_ipv4(text) {
        Some(ip) => {
            let derived = Ipv4Addr { a: ip.a, b: ip.b, c: ip.c, d: DERIVED_LAST_OCTET };
            let s = format_ipv4(&derived);
            proof {
                // The parser returned the one address the text represents,
                // so every represented address is that same one.
                assert forall|ip2: Ipv4Addr| represents(text@, ip2) implies represents(
                    s@,
                    (Ipv4Addr { a: ip2.a, b: ip2.b, c: ip2.c, d: DERIVED_LAST_OCTET }),
                ) by {
                    crate::ipv4::lemma_represents_functional(text@, ip, ip2);
                }
            }
            Ok(s)
        },
        None => Err(
            DmsError::Config(String::from_str("address text is not a dotted-quad address")),
        ),
    }
}

/// `s` holds the placeholder word left in an unconfigured credential.
pub open spec fn has_placeholder(s: Seq<char>) -> bool {
    exists|i: int|
        0 <= i && i + 5 <= s.len() && #[trigger] s[i] == 'T' && s[i + 1] == 'O' && s[i + 2] == 'K'
            && s[i + 3] == 'E' && s[i + 4] == 'N'
}

/// The stock credential is itself the placeholder: it holds the
/// placeholder word, so the stock configuration takes the degraded probe
/// path for the remote-channel monitors.
proof fn lemma_stock_token_is_placeholder()
    ensures
        has_placeholder("TELEGRAM_BOT_TOKEN"@),
{
    reveal_strlit("TELEGRAM_BOT_TOKEN");
    let s = "TELEGRAM_BOT_TOKEN"@;
    assert(s[13] == 'T' && s[14] == 'O' && s[15] == 'K' && s[16] == 'E' && s[17] == 'N');
}

/// The placeholder address text of the stock configuration spells no
/// dotted-quad address: it holds no dot at all.
proof fn lemma_auto_text_not_ipv4()
    ensures
        !is_valid_ipv4("auto"@),
{
    reveal_strlit("auto");
    assert forall|i: int, j: int, k: int| !crate::ipv4::valid_split("auto"@, i, j, k) by {
        if crate::ipv4::valid_split("auto"@, i, j, k) {
            assert("auto"@[i] == '.');
            assert(i == 0 || i == 1 || i == 2 || i == 3);
        }
    }
}

impl Config {
    /// Whether the remote-channel credential is still the placeholder: it
    /// holds the placeholder word somewhere. Such a credential cannot
    /// authenticate, so the monitors needing the channel fail their
    /// startup probe instead of running.
    pub fn token_is_placeholder(&self) -> (r: bool)
        ensures
            r == has_placeholder(self.telegram_bot_token@),
    {
        let tok = self.telegram_bot_token.as_str();
        let n = tok.unicode_len();
        if n < 5 {
            return false;
        }
        let mut i: usize = 0;
        while i <= n - 5
            invariant
                tok@ == self.telegram_bot_token@,
                n == tok@.len(),
                5 <= n,
                i <= n - 4,
                forall|x: int| 0 <= x < i ==> !(#[trigger] tok@[x] == 'T' && tok@[x + 1] == 'O'
                    && tok@[x + 2] == 'K' && tok@[x + 3] == 'E' && tok@[x + 4] == 'N'),
            decreases n - i,
        {
            if tok.get_char(i) as u32 == 84 && tok.get_char(i + 1) as u32 == 79 && tok.get_char(
                i + 2,
            ) as u32 == 75 && tok.get_char(i + 3) as u32 == 69 && tok.get_char(i + 4) as u32 == 78 {
                proof {
                    let s = self.telegram_bot_token@;
                    assert(s == tok@);
                    assert(s[i as int] == 'T' && s[i + 1] == 'O' && s[i + 2] == 'K' && s[i + 3]
                        == 'E' && s[i + 4] == 'N');
                }
                return true;
            }
            i = i + 1;
        }
        proof {
            assert forall|x: int| !(0 <= x && x + 5 <= n as int && #[trigger] tok@[x] == 'T'
                && tok@[x + 1] == 'O' && tok@[x + 2] == 'K' && tok@[x + 3] == 'E' && tok@[x + 4]
                == 'N') by {
                if 0 <= x && x + 5 <= n as int {
                    assert(x < i);
                }
            }
        }
        false
    }

    /// The remote button hub's endpoint, as address text with the
    /// configured port.
    pub fn control_endpoint_text(&self) -> (r: String)
        ensures
            r@ == self.flic_ip@ + ":"@ + crate::ipv4::dec_text(self.flic_port as int),
    {
        let mut out = self.flic_ip.clone();
        out.append(":");
        crate::ipv4::push_decimal(&mut out, self.flic_port as u64);
        out
    }
}

/// Relies on `local_ip_address::local_ip`: the machine's primary local
/// address, handed back rendered as text (`None` where the lookup fails).
/// The value depends on the machine, so nothing is promised of it.
#[verifier::external_body]
fn local_ip_text() -> Option<String> {
    match local_ip_address::local_ip() {
        Ok(ip) => Some(ip.to_string()),
        Err(_) => None,
    }
}

/// Derive the button-hub address from the machine's own primary address by
/// substituting the fixed last octet. Fails where the machine's address
/// cannot be found or is not dotted-quad text (an IPv6 address). The
/// machine's address is whatever the lookup hands back, so this contract
/// states what holds of every outcome; the substitution itself is
/// `derive_from_text`, verified for each possible text.
fn auto_detect_flic_ip() -> (r: Result<String, DmsError>)
    ensures
        r matches Ok(s) ==> derived_address(s@),
        r matches Err(e) ==> e is Config,
{
    match local_ip_text() {
        Some(text) => derive_from_text(text.as_str()),
        None => Err(DmsError::Config(String::from_str("failed to get local address"))),
    }
}

} // verus!
