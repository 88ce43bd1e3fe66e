//! The local account configuration: the `@USER` and `@PASS` directives of
//! the configuration file, and the text written when a configuration is
//! generated.  Reading and writing the file itself, and prompting for the
//! values, is I/O and stays outside the library.

use vstd::prelude::*;
use vstd::string::StringExecFns;

use crate::cron::{find_ws, ConfigError, AT};
use crate::text::{ascii_bytes, utf8_string};

verus! {

/// The byte sequence of the directive word `@USER`.
pub open spec fn user_word() -> Seq<u8> {
    seq![64u8, 85u8, 83u8, 69u8, 82u8]
}

/// The byte sequence of the directive word `@PASS`.
pub open spec fn pass_word() -> Seq<u8> {
    seq![64u8, 80u8, 65u8, 83u8, 83u8]
}

/// Whether `w` is exactly the word `@USER`.
fn is_user_word(w: &[u8]) -> (r: bool)
    ensures
        r == (w@ == user_word()),
{
    if w.len() != 5 {
        proof {
            assert(user_word().len() == 5);
        }
        return false;
    }
    let r = w[0] == 64 && w[1] == 85 && w[2] == 83 && w[3] == 69 && w[4] == 82;
    proof {
        if r {
            assert(w@ =~= user_word());
        } else {
            if w@ == user_word() {
                assert(w@[0] == 64 && w@[1] == 85 && w@[2] == 83 && w@[3] == 69 && w@[4] == 82);
            }
        }
    }
    r
}

/// Whether `w` is exactly the word `@PASS`.
fn is_pass_word(w: &[u8]) -> (r: bool)
    ensures
        r == (w@ == pass_word()),
{
    if w.len() != 5 {
        proof {
            assert(pass_word().len() == 5);
        }
        return false;
    }
    let r = w[0] == 64 && w[1] == 80 && w[2] == 65 && w[3] == 83 && w[4] == 83;
    proof {
        if r {
            assert(w@ =~= pass_word());
        } else {
            if w@ == pass_word() {
                assert(w@[0] == 64 && w@[1] == 80 && w@[2] == 65 && w@[3] == 83 && w@[4] == 83);
            }
        }
    }
    r
}

/// The account configuration: user name, (hashed) password, device name.
pub struct Conf {
    pub user: String,
    pub pass: String,
    pub name: String,
}

impl Conf {
    /// An empty configuration.
    pub fn new() -> (c: Conf)
        ensures
            c.user@ == Seq::<char>::empty(),
            c.pass@ == Seq::<char>::empty(),
            c.name@ == Seq::<char>::empty(),
    {
        Conf { user: String::new(), pass: String::new(), name: String::new() }
    }

    /// The configuration-file text: the three directives, then two sample
    /// jobs so a fresh installation visibly works.  `None` when any field
    /// is still empty.
    pub fn to_string(&self) -> (r: Option<String>)
        ensures
            (r is Some) == (self.name@.len() != 0 && self.user@.len() != 0 && self.pass@.len()
                != 0),
            r matches Some(s) ==> s@ == "@USER "@ + self.user@ + "\n@PASS "@ + self.pass@
                + "\n#NAME "@ + self.name@
                + "\nTestCmd * * * * * date\nHelloCmd */2 * * * * echo Hello World!\n"@,
    {
        if self.name.as_str().is_empty() || self.user.as_str().is_empty()
            || self.pass.as_str().is_empty() {
            return Option::None;
        }
        let mut s = String::new();
        s.append("@USER ");
        s.append(self.user.as_str());
        s.append("\n@PASS ");
        s.append(self.pass.as_str());
        s.append("\n#NAME ");
        s.append(self.name.as_str());
        s.append("\nTestCmd * * * * * date\nHelloCmd */2 * * * * echo Hello World!\n");
        Option::Some(s)
    }

    /// Applies one configuration-file line to the account fields: an
    /// `@USER` or `@PASS` directive stores the rest of the line; any other
    /// line is ignored here; an unknown `@` word, or one without a value,
    /// is rejected.  On any error the configuration is left untouched.
    pub fn apply_line(&mut self, l: &[u8]) -> (r: Result<(), ConfigError>)
        ensures
            ({
                let s = l@;
                let n = s.len() as int;
                let a = find_ws(s, 0);
                {
                    &&& (r is Err ==> *final(self) == *old(self))
                    &&& (n == 0 || s[0] != AT ==> r is Ok && *final(self) == *old(self))
                    &&& (n > 0 && s[0] == AT ==> {
                        &&& (a == n ==> r == Err::<(), ConfigError>(ConfigError::MissingTokens))
                        &&& (a < n && s.subrange(0, a) == user_word() ==> {
                            ||| {
                                &&& r is Ok
                                &&& vstd::utf8::encode_utf8(final(self).user@) == s.subrange(
                                    a + 1,
                                    n,
                                )
                                &&& final(self).pass == old(self).pass
                                &&& final(self).name == old(self).name
                            }
                            ||| r == Err::<(), ConfigError>(ConfigError::BadText)
                        })
                        &&& (a < n && s.subrange(0, a) == pass_word() ==> {
                            ||| {
                                &&& r is Ok
                                &&& vstd::utf8::encode_utf8(final(self).pass@) == s.subrange(
                                    a + 1,
                                    n,
                                )
                                &&& final(self).user == old(self).user
                                &&& final(self).name == old(self).name
                            }
                            ||| r == Err::<(), ConfigError>(ConfigError::BadText)
                        })
                        &&& (a < n && s.subrange(0, a) != user_word() && s.subrange(0, a)
                            != pass_word() ==> r == Err::<(), ConfigError>(
                            ConfigError::UnknownDirective,
                        ))
                    })
                    &&& (ascii_bytes(s) ==> r != Err::<(), ConfigError>(ConfigError::BadText))
                }
            }),
    {
        let n = l.len();
        if n == 0 {
            return Ok(());
        }
        if l[0] != AT {
            return Ok(());
        }
        let a = crate::cron::find_ws_from(l, 0);
        if a == n {
            return Err(ConfigError::MissingTokens);
        }
        let user_hit = is_user_word(&l[0..a]);
        let pass_hit = is_pass_word(&l[0..a]);
        if user_hit {
            let val = match utf8_string(&l[a + 1..n]) {
                Option::Some(t) => t,
                Option::None => {
                    return Err(ConfigError::BadText);
                },
            };
            self.user = val;
            Ok(())
        } else if pass_hit {
            let val = match utf8_string(&l[a + 1..n]) {
                Option::Some(t) => t,
                Option::None => {
                    return Err(ConfigError::BadText);
                },
            };
            self.pass = val;
            Ok(())
        } else {
            Err(ConfigError::UnknownDirective)
        }
    }

    /// Whether both account credentials have been read.
    pub fn complete(&self) -> (r: bool)
        ensures
            r == (self.user@.len() != 0 && self.pass@.len() != 0),
    {
        !self.user.as_str().is_empty() && !self.pass.as_str().is_empty()
    }
}

} // verus!
