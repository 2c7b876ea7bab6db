//! The configuration of a run, and how its command-line values are read.

use crate::addr::Ipv4Addr;
use crate::iface::{get, lemma_first_wanted, pick, Interface};
use vstd::prelude::*;
use vstd::string::StringSliceAdditionalSpecFns;

verus! {

/// What a run is asked to do.
#[derive(Clone, Debug, PartialEq, Eq)]
pub struct Command {
    /// Restore the victim's cache once the run is cancelled.
    pub should_despoof: bool,
    /// The network interface to use, if one was named.
    pub iface: Option<Interface>,
    /// How long a resolution may wait for its answer, in milliseconds.
    pub resolve_timeout: u64,
    /// How long to wait between two spoofed replies, in milliseconds.
    pub spoof_interval: u64,
    /// The address to pose as.
    pub target_ip_addr: Ipv4Addr,
    /// The address of the machine whose cache is poisoned.
    pub victim_ip_addr: Ipv4Addr,
}

impl Command {
    pub fn new(
        should_despoof: bool,
        iface: Option<Interface>,
        resolve_timeout: u64,
        spoof_interval: u64,
        target_ip_addr: Ipv4Addr,
        victim_ip_addr: Ipv4Addr,
    ) -> (cmd: Command)
        ensures
            cmd == (Command {
                should_despoof,
                iface,
                resolve_timeout,
                spoof_interval,
                target_ip_addr,
                victim_ip_addr,
            }),
    {
        Command {
            should_despoof,
            iface,
            resolve_timeout,
            spoof_interval,
            target_ip_addr,
            victim_ip_addr,
        }
    }

    /// Restore the victim's cache once the run is cancelled.
    pub fn should_despoof(&self) -> (yes: bool)
        ensures
            yes == self.should_despoof,
    {
        self.should_despoof
    }

    /// The network interface to use, if one was named.
    pub fn iface(&self) -> (iface: Option<&Interface>)
        ensures
            iface.is_some() == self.iface.is_some(),
            iface matches Some(i) ==> self.iface == Some(*i),
    {
        self.iface.as_ref()
    }

    /// How long a resolution may wait for its answer, in milliseconds.
    pub fn resolve_timeout(&self) -> (millis: u64)
        ensures
            millis == self.resolve_timeout,
    {
        self.resolve_timeout
    }

    /// How long to wait between two spoofed replies, in milliseconds.
    pub fn spoof_interval(&self) -> (millis: u64)
        ensures
            millis == self.spoof_interval,
    {
        self.spoof_interval
    }

    /// The address to pose as.
    pub fn target_ip_addr(&self) -> (ip: Ipv4Addr)
        ensures
            ip == self.target_ip_addr,
    {
        self.target_ip_addr
    }

    /// The address of the machine whose cache is poisoned.
    pub fn victim_ip_addr(&self) -> (ip: Ipv4Addr)
        ensures
            ip == self.victim_ip_addr,
    {
        self.victim_ip_addr
    }
}

/// Whether an interface can be used under the name `name`: it is up, no
/// loopback, and bears that name.
pub open spec fn usable_as(iface: Interface, name: Seq<char>) -> bool {
    iface.spec_is_usable() && iface.name@ == name
}

/// The first usable interface of that name.
pub fn parse_iface<'a>(interfaces: &'a Vec<Interface>, name: &str) -> (found: Result<
    &'a Interface,
    &'static str,
>)
    ensures
        found.is_ok() == pick(interfaces@, |i: Interface| usable_as(i, name@)).is_some(),
        found matches Ok(iface) ==> Some(*iface) == pick(
            interfaces@,
            |i: Interface| usable_as(i, name@),
        ),
        found matches Err(why) ==> why@ == "No usuable network interface found by given name"@,
{
    let wanted_name = name.to_owned();
    let named = |iface: &Interface| -> (yes: bool)
        ensures
            yes == usable_as(*iface, name@),
        { !iface.is_loopback() && iface.is_up() && iface.name == wanted_name };
    let ghost wanted = |i: Interface| usable_as(i, name@);
    match get(interfaces, named) {
        Some(iface) => {
            proof {
                let i = choose|i: int|
                    0 <= i < interfaces.len() && *iface == #[trigger] interfaces[i] && call_ensures(
                        named,
                        (&interfaces[i],),
                        true,
                    ) && forall|j: int|
                        0 <= j < i ==> call_ensures(named, (&#[trigger] interfaces[j],), false);
                lemma_first_wanted(interfaces@, wanted, i);
            }
            Ok(iface)
        },
        None => {
            proof {
                lemma_first_wanted(interfaces@, wanted, interfaces@.len() as int);
            }
            Err("No usuable network interface found by given name")
        },
    }
}

/// Whether a byte is an ASCII decimal digit.
pub open spec fn is_digit(b: u8) -> bool {
    0x30 <= b <= 0x39
}

/// The number that a run of decimal digits spells.
pub open spec fn decimal_value(digits: Seq<u8>) -> nat
    decreases digits.len(),
{
    if digits.len() == 0 {
        0
    } else {
        decimal_value(digits.drop_last()) * 10 + (digits.last() - 0x30) as nat
    }
}

/// The text without its plus sign, if it begins with one.
pub open spec fn unsigned_part(text: Seq<u8>) -> Seq<u8> {
    if text.len() > 0 && text[0] == 0x2b {
        text.skip(1)
    } else {
        text
    }
}

/// The number of milliseconds that `text` spells: an optional plus sign, then
/// one or more decimal digits and nothing else, with a value that 64 bits
/// hold.
pub open spec fn millis_of(text: Seq<u8>) -> Option<u64> {
    let digits = unsigned_part(text);
    if digits.len() > 0 && (forall|i: int| 0 <= i < digits.len() ==> is_digit(#[trigger] digits[i]))
        && decimal_value(digits) <= u64::MAX {
        Some(decimal_value(digits) as u64)
    } else {
        None
    }
}

/// A run of digits spells at least what any of its beginnings spells.
proof fn lemma_decimal_grows(digits: Seq<u8>, n: int)
    requires
        0 <= n <= digits.len(),
        forall|i: int| 0 <= i < digits.len() ==> is_digit(#[trigger] digits[i]),
    ensures
        decimal_value(digits.take(n)) <= decimal_value(digits),
    decreases digits.len() - n,
{
    if n == digits.len() {
        assert(digits.take(n) =~= digits);
    } else {
        let shorter = digits.drop_last();
        if n == digits.len() - 1 {
            assert(digits.take(n) =~= shorter);
        } else {
            assert forall|i: int| 0 <= i < shorter.len() implies is_digit(#[trigger] shorter[i]) by {
                assert(shorter[i] == digits[i]);
            }
            lemma_decimal_grows(shorter, n);
            assert(shorter.take(n) =~= digits.take(n));
        }
    }
}

/// Reads a number of milliseconds from its decimal spelling.
pub fn parse_millis(millis: &str) -> (parsed: Result<u64, &'static str>)
    ensures
        match parsed {
            Ok(n) => millis_of(millis.spec_bytes()) == Some(n),
            Err(why) => millis_of(millis.spec_bytes()) is None && why@
                == "No unsigned 64 bit integer provided"@,
        },
{
    let text = millis.as_bytes();
    let start: usize = if text.len() > 0 && text[0] == 0x2b {
        1
    } else {
        0
    };
    let ghost digits = unsigned_part(text@);
    assert(digits =~= text@.skip(start as int));
    if start == text.len() {
        return Err("No unsigned 64 bit integer provided");
    }
    let mut value: u64 = 0;
    let mut i: usize = start;
    while i < text.len()
        invariant
            start <= i <= text.len(),
            text@ == millis.spec_bytes(),
            digits == unsigned_part(text@),
            digits == text@.skip(start as int),
            forall|k: int| 0 <= k < i - start ==> is_digit(#[trigger] digits[k]),
            value == decimal_value(digits.take(i - start)),
        decreases text.len() - i,
    {
        let b = text[i];
        assert(b == digits[i - start]);
        if b < 0x30 || b > 0x39 {
            assert(!is_digit(digits[i - start]));
            return Err("No unsigned 64 bit integer provided");
        }
        let d: u64 = (b - 0x30) as u64;
        proof {
            let longer = digits.take(i - start + 1);
            assert(longer.drop_last() =~= digits.take(i - start));
            assert(longer.last() == b);
            assert(decimal_value(longer) == value * 10 + d);
        }
        if value > (u64::MAX - d) / 10 {
            proof {
                if forall|k: int| 0 <= k < digits.len() ==> is_digit(#[trigger] digits[k]) {
                    lemma_decimal_grows(digits, i - start + 1);
                }
            }
            return Err("No unsigned 64 bit integer provided");
        }
        value = value * 10 + d;
        i += 1;
    }
    assert(digits.take(i - start) =~= digits);
    Ok(value)
}

} // verus!
