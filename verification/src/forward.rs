//! The port-forwarding engine's rule table: one entry per rule, each with
//! its liveness flag, its cumulative connection counter and its last error.
//! The background relay loops live outside; they report in through these
//! methods, and the owner polls.

use vstd::prelude::*;

use crate::session::SessionConfig;
use crate::text::parse_u16;

verus! {

/// The three forwarding modes.
#[derive(Clone, Copy, PartialEq, Eq, Structural, Debug)]
pub enum ForwardType {
    Local,
    Remote,
    Dynamic,
}

/// One forwarding rule. The destination is unused for dynamic rules.
pub struct ForwardRule {
    pub forward_type: ForwardType,
    pub local_host: String,
    pub local_port: u16,
    pub remote_host: String,
    pub remote_port: u16,
}

/// The mathematical content of a rule.
pub struct RuleV {
    pub forward_type: ForwardType,
    pub local_host: Seq<char>,
    pub local_port: u16,
    pub remote_host: Seq<char>,
    pub remote_port: u16,
}

impl View for ForwardRule {
    type V = RuleV;

    open spec fn view(&self) -> RuleV {
        RuleV {
            forward_type: self.forward_type,
            local_host: self.local_host@,
            local_port: self.local_port,
            remote_host: self.remote_host@,
            remote_port: self.remote_port,
        }
    }
}

/// One rule together with its run state: started rules are alive until the
/// loop exits or a stop is requested; the counter counts every connection
/// ever served; the error slot keeps the loop's last failure.
pub struct ActiveForward {
    pub rule: ForwardRule,
    pub alive: bool,
    pub conn_count: u64,
    pub error: Option<String>,
}

/// The mathematical content of an active rule.
pub struct ActiveV {
    pub rule: RuleV,
    pub alive: bool,
    pub conn_count: u64,
    pub error: Option<Seq<char>>,
}

impl View for ActiveForward {
    type V = ActiveV;

    open spec fn view(&self) -> ActiveV {
        ActiveV {
            rule: self.rule@,
            alive: self.alive,
            conn_count: self.conn_count,
            error: match self.error {
                Some(ref e) => Some(e@),
                None => None,
            },
        }
    }
}

/// The views of the rule table.
pub open spec fn fwd_views(s: Seq<ActiveForward>) -> Seq<ActiveV> {
    s.map_values(|f: ActiveForward| f@)
}

/// The endpoints the running dynamic rules expose, in table order: only a
/// rule that is dynamic and still alive contributes.
pub open spec fn proxies_of(s: Seq<ActiveV>) -> Seq<(Seq<char>, u16)>
    decreases s.len(),
{
    if s.len() == 0 {
        Seq::empty()
    } else if s[0].rule.forward_type == ForwardType::Dynamic && s[0].alive {
        seq![(s[0].rule.local_host, s[0].rule.local_port)] + proxies_of(s.skip(1))
    } else {
        proxies_of(s.skip(1))
    }
}

/// The views of an endpoint list.
pub open spec fn endpoint_views(s: Seq<(String, u16)>) -> Seq<(Seq<char>, u16)> {
    s.map_values(|p: (String, u16)| (p.0@, p.1))
}

/// The rule table of one connection's port forwards.
pub struct PortForwarder {
    pub config: SessionConfig,
    pub forwards: Vec<ActiveForward>,
}

impl PortForwarder {
    /// An empty table for one session's forwards.
    pub fn new(config: SessionConfig) -> (r: Self)
        ensures
            r.forwards@.len() == 0,
            r.config == config,
    {
        PortForwarder { config: config, forwards: Vec::new() }
    }

    /// Register a started rule: alive, no connections served yet.
    pub fn start_forward(&mut self, rule: ForwardRule)
        ensures
            final(self).forwards@ == old(self).forwards@.push(ActiveForward {
                rule: rule,
                alive: true,
                conn_count: 0u64,
                error: None,
            }),
            final(self).config == old(self).config,
    {
        self.forwards.push(ActiveForward { rule: rule, alive: true, conn_count: 0, error: None });
    }

    /// The endpoints of the currently running dynamic rules.
    pub fn active_socks5_proxies(&self) -> (out: Vec<(String, u16)>)
        ensures
            endpoint_views(out@) == proxies_of(fwd_views(self.forwards@)),
    {
        let ghost fv = fwd_views(self.forwards@);
        let mut out: Vec<(String, u16)> = Vec::new();
        let n = self.forwards.len();
        proof {
            assert(fv.skip(0) =~= fv);
            assert(endpoint_views(out@) + proxies_of(fv.skip(0)) =~= proxies_of(fv));
        }
        for i in 0..n
            invariant
                n == self.forwards@.len(),
                fv == fwd_views(self.forwards@),
                endpoint_views(out@) + proxies_of(fv.skip(i as int)) =~= proxies_of(fv),
        {
            let ghost pre = endpoint_views(out@);
            proof {
                assert(fv.skip(i as int)[0] == fv[i as int]);
                assert(fv.skip(i as int).skip(1) =~= fv.skip(i + 1));
            }
            let f = &self.forwards[i];
            if matches!(f.rule.forward_type, ForwardType::Dynamic) && f.alive {
                let host = f.rule.local_host.clone();
                let port = f.rule.local_port;
                out.push((host, port));
                proof {
                    assert(endpoint_views(out@) =~= pre.push((f.rule.local_host@, f.rule.local_port)));
                    assert(endpoint_views(out@) + proxies_of(fv.skip(i + 1)) =~= proxies_of(fv));
                }
            } else {
                proof {
                    assert(endpoint_views(out@) + proxies_of(fv.skip(i + 1)) =~= proxies_of(fv));
                }
            }
        }
        proof {
            assert(fv.skip(n as int) =~= Seq::<ActiveV>::empty());
            assert(endpoint_views(out@) =~= proxies_of(fv));
        }
        out
    }

    /// Request a rule to stop: its liveness flag clears; the background
    /// loop notices at its next scheduling point. Out-of-range indices do
    /// nothing.
    pub fn stop_forward(&mut self, index: usize)
        ensures
            index < old(self).forwards@.len() ==> final(self).forwards@ == old(
                self,
            ).forwards@.update(index as int, ActiveForward {
                alive: false,
                ..old(self).forwards@[index as int]
            }),
            index >= old(self).forwards@.len() ==> final(self).forwards@ == old(self).forwards@,
            final(self).config == old(self).config,
    {
        if index < self.forwards.len() {
            let rule_entry = self.forwards.remove(index);
            let stopped = ActiveForward { alive: false, ..rule_entry };
            self.forwards.insert(index, stopped);
            proof {
                assert(self.forwards@ =~= old(self).forwards@.update(index as int, ActiveForward {
                    alive: false,
                    ..old(self).forwards@[index as int]
                }));
            }
        }
    }

    /// A background loop reports that it has exited, with its last error.
    pub fn mark_finished(&mut self, index: usize, error: Option<String>)
        requires
            index < old(self).forwards@.len(),
        ensures
            final(self).forwards@ == old(self).forwards@.update(index as int, ActiveForward {
                alive: false,
                error: error,
                ..old(self).forwards@[index as int]
            }),
            final(self).config == old(self).config,
    {
        let rule_entry = self.forwards.remove(index);
        let finished = ActiveForward { alive: false, error: error, ..rule_entry };
        self.forwards.insert(index, finished);
        proof {
            assert(self.forwards@ =~= old(self).forwards@.update(index as int, ActiveForward {
                alive: false,
                error: old(self).forwards@[index as int].error,
                ..old(self).forwards@[index as int]
            }).update(index as int, ActiveForward {
                alive: false,
                error: error,
                ..old(self).forwards@[index as int]
            }));
        }
    }

    /// Count one more served connection; the counter is cumulative and
    /// wraps like the machine word it is.
    pub fn record_connection(&mut self, index: usize)
        requires
            index < old(self).forwards@.len(),
        ensures
            final(self).forwards@ == old(self).forwards@.update(index as int, ActiveForward {
                conn_count: if old(self).forwards@[index as int].conn_count == u64::MAX {
                    0u64
                } else {
                    (old(self).forwards@[index as int].conn_count + 1) as u64
                },
                ..old(self).forwards@[index as int]
            }),
            final(self).config == old(self).config,
    {
        let rule_entry = self.forwards.remove(index);
        let count = if rule_entry.conn_count == u64::MAX {
            0
        } else {
            rule_entry.conn_count + 1
        };
        let bumped = ActiveForward { conn_count: count, ..rule_entry };
        self.forwards.insert(index, bumped);
        proof {
            assert(self.forwards@ =~= old(self).forwards@.update(index as int, ActiveForward {
                conn_count: if old(self).forwards@[index as int].conn_count == u64::MAX {
                    0u64
                } else {
                    (old(self).forwards@[index as int].conn_count + 1) as u64
                },
                ..old(self).forwards@[index as int]
            }));
        }
    }
}

/// The entries of the table that are still alive, in order.
pub open spec fn alive_entries(s: Seq<ActiveV>) -> Seq<ActiveV>
    decreases s.len(),
{
    if s.len() == 0 {
        Seq::empty()
    } else if s[0].alive {
        seq![s[0]] + alive_entries(s.skip(1))
    } else {
        alive_entries(s.skip(1))
    }
}

/// The errors the dead entries left behind, in order.
pub open spec fn dead_errors(s: Seq<ActiveV>) -> Seq<Seq<char>>
    decreases s.len(),
{
    if s.len() == 0 {
        Seq::empty()
    } else if !s[0].alive && s[0].error is Some {
        seq![s[0].error->Some_0] + dead_errors(s.skip(1))
    } else {
        dead_errors(s.skip(1))
    }
}

impl PortForwarder {
    /// One poll sweep: collect the errors of finished rules and drop the
    /// dead entries from the table.
    pub fn sweep(&mut self) -> (errors: Vec<String>)
        ensures
            fwd_views(final(self).forwards@) == alive_entries(fwd_views(old(self).forwards@)),
            errors@.map_values(|e: String| e@) == dead_errors(fwd_views(old(self).forwards@)),
            final(self).config == old(self).config,
    {
        let ghost fv = fwd_views(self.forwards@);
        let mut kept: Vec<ActiveForward> = Vec::new();
        let mut errors: Vec<String> = Vec::new();
        let mut rest: Vec<ActiveForward> = Vec::new();
        core::mem::swap(&mut rest, &mut self.forwards);
        let ghost k: int = 0;
        proof {
            assert(fwd_views(rest@) =~= fv.skip(0));
            assert(fwd_views(kept@) + alive_entries(fv.skip(0)) =~= alive_entries(fv));
            assert(errors@.map_values(|e: String| e@) + dead_errors(fv.skip(0)) =~= dead_errors(fv));
        }
        while rest.len() > 0
            invariant
                0 <= k <= fv.len(),
                rest@.len() == fv.len() - k,
                fwd_views(rest@) =~= fv.skip(k),
                fwd_views(kept@) + alive_entries(fv.skip(k)) =~= alive_entries(fv),
                errors@.map_values(|e: String| e@) + dead_errors(fv.skip(k)) =~= dead_errors(fv),
            decreases rest@.len(),
        {
            let ghost rr0 = rest@;
            let ghost kept0 = fwd_views(kept@);
            let ghost errs0 = errors@.map_values(|e: String| e@);
            let f = rest.remove(0);
            proof {
                assert(f@ == fv.skip(k)[0]);
                assert forall|t: int| 0 <= t < rest@.len() implies fwd_views(rest@)[t] == fv.skip(
                    k + 1,
                )[t] by {
                    assert(rest@[t] == rr0[t + 1]);
                    assert(fwd_views(rr0)[t + 1] == rr0[t + 1]@);
                }
                assert(fwd_views(rest@) =~= fv.skip(k + 1));
                assert(fv.skip(k).skip(1) =~= fv.skip(k + 1));
            }
            if f.alive {
                kept.push(f);
                proof {
                    assert(fwd_views(kept@) =~= kept0.push(fv.skip(k)[0]));
                    assert(alive_entries(fv.skip(k)) == seq![fv.skip(k)[0]] + alive_entries(
                        fv.skip(k).skip(1),
                    ));
                    assert(fwd_views(kept@) + alive_entries(fv.skip(k + 1)) =~= alive_entries(fv));
                }
            } else {
                match f.error {
                    Some(e) => {
                        errors.push(e);
                        proof {
                            assert(errors@.map_values(|e2: String| e2@) =~= errs0.push(
                                fv.skip(k)[0].error->Some_0,
                            ));
                            assert(errors@.map_values(|e2: String| e2@) + dead_errors(fv.skip(k + 1))
                                =~= dead_errors(fv));
                        }
                    },
                    None => {
                        proof {
                            assert(errs0 + dead_errors(fv.skip(k + 1)) =~= dead_errors(fv));
                        }
                    },
                }
                proof {
                    assert(fwd_views(kept@) + alive_entries(fv.skip(k + 1)) =~= alive_entries(fv));
                }
            }
            proof {
                k = k + 1;
            }
        }
        self.forwards = kept;
        proof {
            assert(fv.skip(k) =~= Seq::<ActiveV>::empty());
            assert(fwd_views(self.forwards@) =~= alive_entries(fv));
            assert(errors@.map_values(|e: String| e@) =~= dead_errors(fv));
        }
        errors
    }
}

/// The endpoint list distributes over splitting the table.
pub proof fn lemma_proxies_append(a: Seq<ActiveV>, b: Seq<ActiveV>)
    ensures
        proxies_of(a + b) == proxies_of(a) + proxies_of(b),
    decreases a.len(),
{
    if a.len() == 0 {
        assert(a + b =~= b);
        assert(proxies_of(a) + proxies_of(b) =~= proxies_of(b));
    } else {
        lemma_proxies_append(a.skip(1), b);
        assert((a + b).skip(1) =~= a.skip(1) + b);
        assert((a + b)[0] == a[0]);
        if a[0].rule.forward_type == ForwardType::Dynamic && a[0].alive {
            assert(proxies_of(a + b) == seq![(a[0].rule.local_host, a[0].rule.local_port)]
                + proxies_of(a.skip(1) + b));
            assert(seq![(a[0].rule.local_host, a[0].rule.local_port)] + (proxies_of(a.skip(1))
                + proxies_of(b)) =~= proxies_of(a) + proxies_of(b));
        }
    }
}

/// The endpoint list of a single entry.
pub proof fn lemma_proxies_single(e: ActiveV)
    ensures
        proxies_of(seq![e]) == (if e.rule.forward_type == ForwardType::Dynamic && e.alive {
            seq![(e.rule.local_host, e.rule.local_port)]
        } else {
            Seq::<(Seq<char>, u16)>::empty()
        }),
{
    assert(seq![e].skip(1) =~= Seq::<ActiveV>::empty());
    assert(seq![e][0] == e);
    assert(proxies_of(Seq::<ActiveV>::empty()) == Seq::<(Seq<char>, u16)>::empty());
    if e.rule.forward_type == ForwardType::Dynamic && e.alive {
        assert(proxies_of(seq![e]) == seq![(e.rule.local_host, e.rule.local_port)] + proxies_of(
            seq![e].skip(1),
        ));
        assert(seq![(e.rule.local_host, e.rule.local_port)] + Seq::<(Seq<char>, u16)>::empty()
            =~= seq![(e.rule.local_host, e.rule.local_port)]);
    } else {
        assert(proxies_of(seq![e]) == proxies_of(seq![e].skip(1)));
    }
}

/// Stopping a rule by index removes exactly that rule's endpoint from the
/// running dynamic endpoints; every other rule's contribution is kept.
pub proof fn lemma_stop_forward_removes(fs: Seq<ActiveV>, i: int)
    requires
        0 <= i < fs.len(),
    ensures
        proxies_of(fs.update(i, ActiveV { alive: false, ..fs[i] })) == proxies_of(fs.take(i))
            + proxies_of(fs.skip(i + 1)),
        fs[i].rule.forward_type == ForwardType::Dynamic && fs[i].alive ==> proxies_of(fs)
            == proxies_of(fs.take(i)) + seq![(fs[i].rule.local_host, fs[i].rule.local_port)]
            + proxies_of(fs.skip(i + 1)),
        fs[i].rule.forward_type != ForwardType::Dynamic || !fs[i].alive ==> proxies_of(fs)
            == proxies_of(fs.take(i)) + proxies_of(fs.skip(i + 1)),
{
    let stopped = ActiveV { alive: false, ..fs[i] };
    let fs2 = fs.update(i, stopped);
    assert(fs =~= fs.take(i) + seq![fs[i]] + fs.skip(i + 1));
    assert(fs2 =~= fs.take(i) + seq![stopped] + fs.skip(i + 1));
    lemma_proxies_append(fs.take(i) + seq![stopped], fs.skip(i + 1));
    lemma_proxies_append(fs.take(i), seq![stopped]);
    lemma_proxies_append(fs.take(i) + seq![fs[i]], fs.skip(i + 1));
    lemma_proxies_append(fs.take(i), seq![fs[i]]);
    lemma_proxies_single(stopped);
    lemma_proxies_single(fs[i]);
    assert(proxies_of(fs.take(i)) + Seq::<(Seq<char>, u16)>::empty() =~= proxies_of(fs.take(i)));
    assert(proxies_of(fs2) =~= proxies_of(fs.take(i)) + proxies_of(fs.skip(i + 1)));
}

/// Build a rule from the add-rule dialog's fields; the bind port must be a
/// port number and the bind host non-empty, and for the local and remote
/// modes the destination must be given too — exactly then is a rule made.
pub fn build_rule(
    type_index: usize,
    bind_host: &str,
    bind_port: &str,
    dest_host: &str,
    dest_port: &str,
) -> (r: Option<ForwardRule>)
    ensures
        ({
            let ok = if type_index == 2 {
                crate::text::parse_u16_spec(bind_port@) is Some && bind_host@.len() > 0
            } else {
                crate::text::parse_u16_spec(bind_port@) is Some && crate::text::parse_u16_spec(
                    dest_port@,
                ) is Some && bind_host@.len() > 0 && dest_host@.len() > 0
            };
            &&& (r is Some <==> ok)
            &&& (r matches Some(rule) ==> {
                &&& rule.forward_type == (if type_index == 0 {
                    ForwardType::Local
                } else if type_index == 1 {
                    ForwardType::Remote
                } else {
                    ForwardType::Dynamic
                })
                &&& rule.local_host@ == bind_host@
                &&& Some(rule.local_port) == crate::text::parse_u16_spec(bind_port@)
                &&& rule.remote_host@ == dest_host@
                &&& (type_index != 2 ==> Some(rule.remote_port) == crate::text::parse_u16_spec(
                    dest_port@,
                ))
            })
        }),
{
    let bind = parse_u16(bind_port);
    if type_index == 2 {
        match bind {
            Some(bp) => {
                if bind_host.unicode_len() > 0 {
                    Some(ForwardRule {
                        forward_type: ForwardType::Dynamic,
                        local_host: bind_host.to_owned(),
                        local_port: bp,
                        remote_host: dest_host.to_owned(),
                        remote_port: 0,
                    })
                } else {
                    None
                }
            },
            None => None,
        }
    } else {
        let dest = parse_u16(dest_port);
        match (bind, dest) {
            (Some(bp), Some(dp)) => {
                if bind_host.unicode_len() > 0 && dest_host.unicode_len() > 0 {
                    Some(ForwardRule {
                        forward_type: if type_index == 0 {
                            ForwardType::Local
                        } else if type_index == 1 {
                            ForwardType::Remote
                        } else {
                            ForwardType::Dynamic
                        },
                        local_host: bind_host.to_owned(),
                        local_port: bp,
                        remote_host: dest_host.to_owned(),
                        remote_port: dp,
                    })
                } else {
                    None
                }
            },
            _ => None,
        }
    }
}

} // verus!
