//! One cron job: parsing its configuration line, holding its resolved
//! bitmaps or reboot trigger, and deciding each tick whether it is due.
//!
//! A configuration line is `alias`, then either the word `@reboot` or five
//! schedule tokens the server resolves into bitmaps, then the shell
//! command.  Resolving the tokens needs a network exchange, so parsing
//! stops at a [`LineOutcome::NeedSchedule`] request and the caller hands
//! the resolved bitmaps back through [`Cron::apply_schedule`].  Running a
//! due job's command is I/O and stays outside the library.

use vstd::prelude::*;

use crate::msg::{sched_wf, Sched};
use crate::point::{timestamp_chars, Point};
use crate::text::{ascii_bytes, is_ws, utf8_string, ws};
use vstd::string::StringExecFns;

verus! {

/// '@': starts a local directive line, and the reboot schedule word.
pub const AT: u8 = 64;

/// '#': starts a line forwarded verbatim to the server.
pub const HASH: u8 = 35;

/// The index of the first ASCII whitespace byte at or after `from`, or the
/// length when there is none.
pub open spec fn find_ws(s: Seq<u8>, from: int) -> int
    decreases s.len() - from,
{
    if from < 0 || from >= s.len() {
        s.len() as int
    } else if is_ws(s[from]) {
        from
    } else {
        find_ws(s, from + 1)
    }
}

/// The index of the (k+1)-th whitespace byte at or after `from`, or the
/// length when there are not that many.
pub open spec fn nth_ws(s: Seq<u8>, from: int, k: nat) -> int
    decreases k,
{
    let w = find_ws(s, from);
    if k == 0 {
        w
    } else {
        nth_ws(s, w + 1, (k - 1) as nat)
    }
}

/// What [`find_ws`] returns: the first whitespace position in range, with
/// nothing but non-whitespace before it.
pub proof fn lemma_find_ws(s: Seq<u8>, from: int)
    requires
        0 <= from <= s.len(),
    ensures
        from <= find_ws(s, from) <= s.len(),
        find_ws(s, from) < s.len() ==> is_ws(s[find_ws(s, from)]),
        forall|k: int| from <= k < find_ws(s, from) ==> !is_ws(s[k]),
    decreases s.len() - from,
{
    if from < s.len() && !is_ws(s[from]) {
        lemma_find_ws(s, from + 1);
    }
}

/// The byte sequence of the word `@reboot`.
pub open spec fn reboot_bytes() -> Seq<u8> {
    seq![64u8, 114u8, 101u8, 98u8, 111u8, 111u8, 116u8]
}

/// The index of the first ASCII whitespace byte at or after `from`.
pub fn find_ws_from(s: &[u8], from: usize) -> (r: usize)
    requires
        from <= s@.len(),
    ensures
        r == find_ws(s@, from as int),
        from <= r <= s@.len(),
        r < s@.len() ==> is_ws(s@[r as int]),
{
    let n = s.len();
    let mut i = from;
    while i < n
        invariant
            from <= i <= n,
            n == s@.len(),
            find_ws(s@, from as int) == find_ws(s@, i as int),
        decreases n - i,
    {
        if ws(s[i]) {
            proof {
                lemma_find_ws(s@, i as int);
            }
            return i;
        }
        i += 1;
    }
    i
}

/// The index of the fifth whitespace byte at or after `from`, or the
/// length when there are fewer than five.
fn fifth_ws_from(s: &[u8], from: usize) -> (r: usize)
    requires
        from <= s@.len(),
    ensures
        r == nth_ws(s@, from as int, 4),
        from <= r <= s@.len(),
{
    let n = s.len();
    let mut w = find_ws_from(s, from);
    let mut i: usize = 0;
    while i < 4
        invariant
            i <= 4,
            n == s@.len(),
            from <= w <= n,
            nth_ws(s@, from as int, 4) == if i == 4 {
                w as int
            } else {
                nth_ws(s@, w + 1, (3 - i) as nat)
            },
        decreases 4 - i,
    {
        if w == n {
            proof {
                assert(find_ws(s@, w + 1) == s@.len());
                assert(nth_ws(s@, w + 1, (3 - i) as nat) == w as int) by {
                    lemma_nth_ws_saturated(s@, w + 1, (3 - i) as nat);
                }
            }
        } else {
            let next = find_ws_from(s, w + 1);
            proof {
                assert(nth_ws(s@, w + 1, (3 - i) as nat) == if i == 3 {
                    next as int
                } else {
                    nth_ws(s@, next + 1, (2 - i) as nat)
                });
            }
            w = next;
        }
        i += 1;
    }
    w
}

/// Past the end, every further whitespace search stays at the end.
proof fn lemma_nth_ws_saturated(s: Seq<u8>, from: int, k: nat)
    requires
        from >= s.len(),
    ensures
        nth_ws(s, from, k) == s.len(),
    decreases k,
{
    if k > 0 {
        lemma_nth_ws_saturated(s, s.len() as int + 1, (k - 1) as nat);
    }
}

/// Whether `w` is exactly the word `@reboot`.
fn is_reboot_word(w: &[u8]) -> (r: bool)
    ensures
        r == (w@ == reboot_bytes()),
{
    if w.len() != 7 {
        proof {
            assert(reboot_bytes().len() == 7);
        }
        return false;
    }
    let r = w[0] == 64 && w[1] == 114 && w[2] == 101 && w[3] == 98 && w[4] == 111 && w[5] == 111
        && w[6] == 116;
    proof {
        if r {
            assert(w@ =~= reboot_bytes());
        } else {
            if w@ == reboot_bytes() {
                assert(w@[0] == 64 && w@[1] == 114 && w@[2] == 101 && w@[3] == 98 && w@[4] == 111
                    && w@[5] == 111 && w@[6] == 116);
            }
        }
    }
    r
}

/// What parsing one configuration line asks the caller to do next.
#[derive(Debug, PartialEq, Eq)]
pub enum LineOutcome {
    /// An empty line or a local `@` directive: nothing to do.
    Skipped,
    /// A `#` line: send the line verbatim to the server.
    ForwardRequested,
    /// A reboot-triggered job was loaded completely.
    RebootLoaded,
    /// A bitmap-scheduled job needs its five tokens resolved by the
    /// server; hand the resolved bitmaps to [`Cron::apply_schedule`].
    NeedSchedule { tokens: Vec<u8> },
}

/// Why a configuration line was rejected.
#[derive(Clone, Copy, Debug, PartialEq, Eq, Structural)]
pub enum ConfigError {
    /// The line lacks an alias, the five schedule tokens, or a command.
    MissingTokens,
    /// An `@`-prefixed schedule word other than `@reboot`.
    UnknownSchedule,
    /// An `@`-prefixed directive word other than `@USER` or `@PASS`.
    UnknownDirective,
    /// The alias or command is not valid UTF-8.
    BadText,
}

/// One loaded job: its alias, its resolved bitmaps (all-zero for a
/// reboot-triggered job), its shell command, and the one-shot trigger
/// flag.
#[derive(Clone)]
pub struct Cron {
    pub alias: String,
    pub min: [u8; 60],
    pub hour: [u8; 24],
    pub dom: [u8; 32],
    pub mon: [u8; 13],
    pub dow: [u8; 7],
    pub cmd: String,
    pub trigger: bool,
}

/// All bitmap cells hold 0 or 1.
pub open spec fn cron_wf(c: Cron) -> bool {
    &&& forall|i: int| 0 <= i < 60 ==> c.min@[i] <= 1
    &&& forall|i: int| 0 <= i < 24 ==> c.hour@[i] <= 1
    &&& forall|i: int| 0 <= i < 32 ==> c.dom@[i] <= 1
    &&& forall|i: int| 0 <= i < 13 ==> c.mon@[i] <= 1
    &&& forall|i: int| 0 <= i < 7 ==> c.dow@[i] <= 1
}

/// All five bitmaps flag the point's coordinate: the job is scheduled to
/// run at `p`.
pub open spec fn scheduled_due(c: Cron, p: Point) -> bool {
    &&& c.min@[p.min as int] == 1
    &&& c.hour@[p.hour as int] == 1
    &&& c.dom@[p.dom as int] == 1
    &&& c.mon@[p.mon as int] == 1
    &&& c.dow@[p.dow as int] == 1
}

/// The five-cell sum the due-check adds up.
pub open spec fn due_sum(c: Cron, p: Point) -> int {
    c.min@[p.min as int] + c.hour@[p.hour as int] + c.dom@[p.dom as int] + c.mon@[p.mon as int]
        + c.dow@[p.dow as int]
}

/// The due-check sum ranges over [0, 5], and reaching 5 is equivalent to
/// every one of the five bitmaps flagging the point's coordinate.
pub proof fn lemma_due_sum(c: Cron, p: Point)
    requires
        cron_wf(c),
        p.wf(),
    ensures
        0 <= due_sum(c, p) <= 5,
        (due_sum(c, p) == 5) <==> scheduled_due(c, p),
{
}

impl Cron {
    /// A blank job: empty alias and command, nothing flagged, no trigger.
    pub fn new() -> (c: Cron)
        ensures
            cron_wf(c),
            c.alias@ == Seq::<char>::empty(),
            c.cmd@ == Seq::<char>::empty(),
            c.trigger == false,
            forall|i: int| 0 <= i < 60 ==> c.min@[i] == 0,
            forall|i: int| 0 <= i < 24 ==> c.hour@[i] == 0,
            forall|i: int| 0 <= i < 32 ==> c.dom@[i] == 0,
            forall|i: int| 0 <= i < 13 ==> c.mon@[i] == 0,
            forall|i: int| 0 <= i < 7 ==> c.dow@[i] == 0,
    {
        Cron {
            alias: String::new(),
            min: [0u8; 60],
            hour: [0u8; 24],
            dom: [0u8; 32],
            mon: [0u8; 13],
            dow: [0u8; 7],
            cmd: String::new(),
            trigger: false,
        }
    }

    /// Parses one configuration line.
    ///
    /// Empty lines and `@` directives are skipped; `#` lines are to be
    /// forwarded verbatim.  Otherwise the first token is the alias; a
    /// following `@reboot` makes a reboot-triggered job whose command is
    /// the rest of the line, any other `@` word is rejected, and otherwise
    /// the five following tokens are returned for server resolution with
    /// the rest of the line as the command.  On any error the job is left
    /// untouched.
    pub fn process_line(&mut self, l: &[u8]) -> (r: Result<LineOutcome, ConfigError>)
        ensures
            ({
                let s = l@;
                let n = s.len() as int;
                let a = find_ws(s, 0);
                {
                    &&& (r is Err ==> *final(self) == *old(self))
                    &&& (n == 0 ==> r == Ok::<LineOutcome, ConfigError>(LineOutcome::Skipped))
                    &&& (n > 0 && s[0] == AT ==> r == Ok::<LineOutcome, ConfigError>(
                        LineOutcome::Skipped,
                    ))
                    &&& (n > 0 && s[0] == HASH ==> r == Ok::<LineOutcome, ConfigError>(
                        LineOutcome::ForwardRequested,
                    ))
                    &&& (r is Ok && (r != Ok::<LineOutcome, ConfigError>(LineOutcome::Skipped) && r
                        != Ok::<LineOutcome, ConfigError>(LineOutcome::ForwardRequested))
                        ==> n > 0 && s[0] != AT && s[0] != HASH)
                    &&& (n > 0 && s[0] != AT && s[0] != HASH ==> {
                        &&& (a + 1 >= n ==> r == Err::<LineOutcome, ConfigError>(
                            ConfigError::MissingTokens,
                        ))
                        &&& (a + 1 < n && s[a + 1] == AT ==> {
                            let e = find_ws(s, a + 1);
                            {
                                &&& (e == n ==> r == Err::<LineOutcome, ConfigError>(
                                    ConfigError::MissingTokens,
                                ))
                                &&& (e < n && s.subrange(a + 1, e) != reboot_bytes() ==> r
                                    == Err::<LineOutcome, ConfigError>(ConfigError::UnknownSchedule))
                                &&& (e < n && s.subrange(a + 1, e) == reboot_bytes() ==> {
                                    ||| {
                                        &&& r == Ok::<LineOutcome, ConfigError>(
                                            LineOutcome::RebootLoaded,
                                        )
                                        &&& final(self).trigger == true
                                        &&& vstd::utf8::encode_utf8(final(self).alias@)
                                            == s.subrange(0, a)
                                        &&& vstd::utf8::encode_utf8(final(self).cmd@) == s.subrange(
                                            e,
                                            n,
                                        )
                                        &&& final(self).min == old(self).min
                                        &&& final(self).hour == old(self).hour
                                        &&& final(self).dom == old(self).dom
                                        &&& final(self).mon == old(self).mon
                                        &&& final(self).dow == old(self).dow
                                    }
                                    ||| r == Err::<LineOutcome, ConfigError>(ConfigError::BadText)
                                })
                            }
                        })
                        &&& (a + 1 < n && s[a + 1] != AT ==> {
                            let w5 = nth_ws(s, a + 1, 4);
                            {
                                &&& (w5 == n ==> r == Err::<LineOutcome, ConfigError>(
                                    ConfigError::MissingTokens,
                                ))
                                &&& (w5 < n ==> {
                                    ||| {
                                        &&& r matches Ok(LineOutcome::NeedSchedule { tokens })
                                            && tokens@ == s.subrange(a + 1, w5 + 1)
                                        &&& vstd::utf8::encode_utf8(final(self).alias@)
                                            == s.subrange(0, a)
                                        &&& vstd::utf8::encode_utf8(final(self).cmd@) == s.subrange(
                                            w5 + 1,
                                            n,
                                        )
                                        &&& final(self).trigger == old(self).trigger
                                        &&& final(self).min == old(self).min
                                        &&& final(self).hour == old(self).hour
                                        &&& final(self).dom == old(self).dom
                                        &&& final(self).mon == old(self).mon
                                        &&& final(self).dow == old(self).dow
                                    }
                                    ||| r == Err::<LineOutcome, ConfigError>(ConfigError::BadText)
                                })
                            }
                        })
                    })
                    &&& (ascii_bytes(s) ==> r != Err::<LineOutcome, ConfigError>(
                        ConfigError::BadText,
                    ))
                }
            }),
    {
        let n = l.len();
        if n == 0 {
            return Ok(LineOutcome::Skipped);
        }
        if l[0] == AT {
            return Ok(LineOutcome::Skipped);
        }
        if l[0] == HASH {
            return Ok(LineOutcome::ForwardRequested);
        }
        let a = find_ws_from(l, 0);
        if a >= n - 1 {
            return Err(ConfigError::MissingTokens);
        }
        if l[a + 1] == AT {
            let e = find_ws_from(l, a + 1);
            if e == n {
                return Err(ConfigError::MissingTokens);
            }
            if !is_reboot_word(&l[a + 1..e]) {
                return Err(ConfigError::UnknownSchedule);
            }
            let alias = match utf8_string(&l[0..a]) {
                Option::Some(t) => t,
                Option::None => {
                    return Err(ConfigError::BadText);
                },
            };
            let cmd = match utf8_string(&l[e..n]) {
                Option::Some(t) => t,
                Option::None => {
                    return Err(ConfigError::BadText);
                },
            };
            self.alias = alias;
            self.cmd = cmd;
            self.trigger = true;
            Ok(LineOutcome::RebootLoaded)
        } else {
            let w5 = fifth_ws_from(l, a + 1);
            if w5 == n {
                return Err(ConfigError::MissingTokens);
            }
            let alias = match utf8_string(&l[0..a]) {
                Option::Some(t) => t,
                Option::None => {
                    return Err(ConfigError::BadText);
                },
            };
            let cmd = match utf8_string(&l[w5 + 1..n]) {
                Option::Some(t) => t,
                Option::None => {
                    return Err(ConfigError::BadText);
                },
            };
            let tokens = vstd::slice::slice_to_vec(&l[a + 1..w5 + 1]);
            self.alias = alias;
            self.cmd = cmd;
            Ok(LineOutcome::NeedSchedule { tokens })
        }
    }

    /// Stores server-resolved bitmaps into the job.
    pub fn apply_schedule(&mut self, s: &Sched)
        requires
            sched_wf(*s),
        ensures
            final(self).min == s.min,
            final(self).hour == s.hour,
            final(self).dom == s.dom,
            final(self).mon == s.mon,
            final(self).dow == s.dow,
            final(self).alias == old(self).alias,
            final(self).cmd == old(self).cmd,
            final(self).trigger == old(self).trigger,
            cron_wf(*final(self)),
    {
        self.min = s.min;
        self.hour = s.hour;
        self.dom = s.dom;
        self.mon = s.mon;
        self.dow = s.dow;
    }

    /// The per-tick due-check.  A pending trigger (remote or reboot) makes
    /// the job due once and clears itself; otherwise the job is due
    /// exactly when all five bitmaps flag the tick's coordinates.
    pub fn check_due(&mut self, p: &Point) -> (due: bool)
        requires
            cron_wf(*old(self)),
            p.wf(),
        ensures
            due == (old(self).trigger || scheduled_due(*old(self), *p)),
            final(self).trigger == false,
            final(self).alias == old(self).alias,
            final(self).cmd == old(self).cmd,
            final(self).min == old(self).min,
            final(self).hour == old(self).hour,
            final(self).dom == old(self).dom,
            final(self).mon == old(self).mon,
            final(self).dow == old(self).dow,
            cron_wf(*final(self)),
    {
        if !self.trigger {
            let run = self.min[p.min as usize] + self.hour[p.hour as usize] + self.dom[p.dom
                as usize] + self.mon[p.mon as usize] + self.dow[p.dow as usize];
            proof {
                lemma_due_sum(*self, *p);
            }
            run == 5
        } else {
            self.trigger = false;
            true
        }
    }
}

/// The text a job report carries: the tick's timestamp in brackets, a
/// line break, then the captured command output.
pub fn stamped_output(p: &Point, out: &str) -> (r: String)
    requires
        p.wf(),
    ensures
        r@ == "["@ + timestamp_chars(*p) + "]\n"@ + out@,
{
    let mut s = String::new();
    s.append("[");
    let ts = p.timestamp();
    s.append(ts.as_str());
    s.append("]\n");
    s.append(out);
    proof {
        assert(s@ =~= "["@ + timestamp_chars(*p) + "]\n"@ + out@);
    }
    s
}

} // verus!
