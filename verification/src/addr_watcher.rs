//! Watching the node's addresses for changes.

use crate::text::{copy_texts, same_text, text_views};
use vstd::prelude::*;
use vstd::string::*;

verus! {

/// Whether and how often to look.
#[derive(Debug, Clone, Copy)]
pub struct AddressWatcherConfig {
    pub enabled: bool,
    pub check_interval_secs: u64,
}

/// The addresses have changed.
#[derive(Debug, Clone)]
pub struct AddressChangeEvent {
    pub new_addrs: Vec<String>,
    pub old_addrs: Vec<String>,
}

/// What the watcher reports.
#[derive(Debug)]
pub enum AddrWatcherEvent {
    Changed(AddressChangeEvent),
}

/// A watcher: when it last looked, in nanoseconds of a clock that does not run backwards, and what
/// it saw.
#[derive(Debug)]
pub struct Behaviour {
    pub enabled: bool,
    pub check_interval_secs: u64,
    pub last_check: u64,
    pub last_addrs: Vec<String>,
}

/// The addresses that are there: an empty text stands for none.
pub open spec fn present(v4: Seq<char>, v6: Seq<char>) -> Seq<Seq<char>> {
    if v4.len() == 0 && v6.len() == 0 {
        Seq::empty()
    } else if v4.len() == 0 {
        seq![v6]
    } else if v6.len() == 0 {
        seq![v4]
    } else {
        seq![v4, v6]
    }
}

/// The node's IPv4 and IPv6 address; an empty text stands for none.
pub struct Addresses {
    pub v4: String,
    pub v6: String,
}

fn present_addrs(a: Addresses) -> (r: Vec<String>)
    ensures
        text_views(r@) == present(a.v4@, a.v6@),
{
    let ghost expected = present(a.v4@, a.v6@);
    let mut out: Vec<String> = Vec::new();
    if !a.v4.as_str().is_empty() {
        out.push(a.v4);
    }
    if !a.v6.as_str().is_empty() {
        out.push(a.v6);
    }
    assert(text_views(out@) =~= expected);
    out
}

fn same_texts(a: &Vec<String>, b: &Vec<String>) -> (r: bool)
    ensures
        r == (text_views(a@) == text_views(b@)),
{
    if a.len() != b.len() {
        assert(text_views(a@).len() != text_views(b@).len());
        return false;
    }
    let mut i: usize = 0;
    while i < a.len()
        invariant
            a@.len() == b@.len(),
            i <= a@.len(),
            forall|j: int| 0 <= j < i ==> (#[trigger] a@[j])@ == b@[j]@,
        decreases a@.len() - i,
    {
        if !same_text(a[i].as_str(), b[i].as_str()) {
            assert(text_views(a@)[i as int] != text_views(b@)[i as int]);
            return false;
        }
        i += 1;
    }
    assert(text_views(a@) =~= text_views(b@));
    true
}

/// When a watcher is to look again.
#[derive(Debug, Clone, Copy, PartialEq, Eq, Structural)]
pub enum Due {
    /// It is turned off.
    Never,
    /// After so many nanoseconds.
    In(u128),
    Now,
}

impl Behaviour {
    /// A watcher that starts with the addresses that are there; `addresses` is nothing where they
    /// could not be read, and is not looked at where the watcher is off.
    pub fn new(config: &AddressWatcherConfig, addresses: Option<Addresses>, now: u64) -> (r: Self)
        ensures
            r.enabled == config.enabled,
            r.check_interval_secs == config.check_interval_secs,
            r.last_check == now,
            text_views(r.last_addrs@) == (match addresses {
                Some(a) => if config.enabled {
                    present(a.v4@, a.v6@)
                } else {
                    Seq::empty()
                },
                None => Seq::empty(),
            }),
    {
        let none: Vec<String> = Vec::new();
        assert(text_views(none@) =~= Seq::<Seq<char>>::empty());
        let last_addrs = match addresses {
            Some(a) => if config.enabled {
                present_addrs(a)
            } else {
                none
            },
            None => none,
        };
        Behaviour {
            enabled: config.enabled,
            check_interval_secs: config.check_interval_secs,
            last_check: now,
            last_addrs,
        }
    }

    /// When the watcher is to look again.
    pub fn due(&self, now: u64) -> (r: Due)
        ensures
            ({
                let at = self.last_check + self.check_interval_secs * 1_000_000_000;
                r == (if !self.enabled {
                    Due::Never
                } else if now < at {
                    Due::In((at - now) as u128)
                } else {
                    Due::Now
                })
            }),
    {
        if !self.enabled {
            return Due::Never;
        }
        let at: u128 = self.last_check as u128 + self.check_interval_secs as u128 * 1_000_000_000;
        if (now as u128) < at {
            Due::In(at - now as u128)
        } else {
            Due::Now
        }
    }

    /// Takes what a look has seen; nothing where it could not be read. Reports a change, with what was
    /// there before.
    pub fn checked(&mut self, addresses: Option<Addresses>, now: u64) -> (r: Option<AddrWatcherEvent>)
        ensures
            final(self).last_check == now,
            final(self).enabled == old(self).enabled,
            final(self).check_interval_secs == old(self).check_interval_secs,
            match addresses {
                Some(a) => {
                    let seen = present(a.v4@, a.v6@);
                    let before = text_views(old(self).last_addrs@);
                    &&& text_views(final(self).last_addrs@) == seen
                    &&& if seen == before {
                        r is None
                    } else {
                        r matches Some(AddrWatcherEvent::Changed(e)) && text_views(e.new_addrs@) == seen && text_views(
                            e.old_addrs@,
                        ) == before
                    }
                },
                None => r is None && final(self).last_addrs == old(self).last_addrs,
            },
    {
        self.last_check = now;
        match addresses {
            Some(a) => {
                let current = present_addrs(a);
                if same_texts(&current, &self.last_addrs) {
                    return None;
                }
                let new_addrs = copy_texts(&current);
                let mut old_addrs = current;
                core::mem::swap(&mut self.last_addrs, &mut old_addrs);
                Some(AddrWatcherEvent::Changed(AddressChangeEvent { new_addrs, old_addrs }))
            },
            None => None,
        }
    }
}

/// The addresses that are there are those that are not empty, IPv4 first.
pub proof fn present_addresses_are_not_empty(v4: Seq<char>, v6: Seq<char>)
    ensures
        present(v4, v6) == seq![v4, v6].filter(|a: Seq<char>| a.len() > 0),
{
    reveal(Seq::filter);
    let keep = |a: Seq<char>| a.len() > 0;
    let both = seq![v4, v6];
    assert(both.drop_last() =~= seq![v4]);
    assert(seq![v4].drop_last() =~= Seq::<Seq<char>>::empty());
    reveal_with_fuel(Seq::filter, 3);
    assert(both.filter(keep) =~= present(v4, v6));
}

} // verus!
