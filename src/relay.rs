use vstd::prelude::*;

verus! {

/// The two ends of a relay pair.
#[derive(Clone, Copy, Debug, PartialEq, Eq, Structural)]
pub enum Side {
    /// The connection of the public client.
    Public,
    /// The stream to the private service, through the tunnel.
    Private,
}

pub open spec fn other(s: Side) -> Side {
    match s {
        Side::Public => Side::Private,
        Side::Private => Side::Public,
    }
}

/// What the driver of a relay pair must do next.
#[derive(Clone, Debug, PartialEq, Eq)]
pub enum SpliceAction {
    /// Write these bytes to that side.
    Write { to: Side, bytes: Vec<u8> },
    /// Half-close: shut down writing towards that side.
    ShutdownWrite { to: Side },
    /// Both directions are done, or the pair failed: close both ends.
    Close,
    Nothing,
}

/// One relay pair's splice: two independent directions, each open until its
/// source reaches end of stream, an idle timer, and logs of what each side
/// sent and was sent.
pub struct Splice {
    from_public_open: bool,
    from_private_open: bool,
    done: bool,
    last_activity: u64,
    idle_timeout: u64,
    read_public: Ghost<Seq<u8>>,
    read_private: Ghost<Seq<u8>>,
    written_public: Ghost<Seq<u8>>,
    written_private: Ghost<Seq<u8>>,
}

impl Splice {
    /// Whether bytes read from `s` are still carried across.
    pub closed spec fn open_from(&self, s: Side) -> bool {
        match s {
            Side::Public => self.from_public_open,
            Side::Private => self.from_private_open,
        }
    }

    /// Every byte read from side `s` while its direction was open, in order.
    pub closed spec fn read_from(&self, s: Side) -> Seq<u8> {
        match s {
            Side::Public => self.read_public@,
            Side::Private => self.read_private@,
        }
    }

    /// Every byte the splice has told the driver to write to side `s`, in order.
    pub closed spec fn written_to(&self, s: Side) -> Seq<u8> {
        match s {
            Side::Public => self.written_public@,
            Side::Private => self.written_private@,
        }
    }

    pub closed spec fn is_done(&self) -> bool {
        self.done
    }

    pub closed spec fn last_activity(&self) -> u64 {
        self.last_activity
    }

    pub closed spec fn idle_timeout(&self) -> u64 {
        self.idle_timeout
    }

    /// Each direction has written exactly what it read.
    pub closed spec fn wf(&self) -> bool {
        &&& self.written_private@ == self.read_public@
        &&& self.written_public@ == self.read_private@
    }

    /// A fresh pair, both directions open, started at `now`.
    pub fn new(now: u64, idle_timeout: u64) -> (r: Splice)
        ensures
            r.wf(),
            !r.is_done(),
            r.open_from(Side::Public),
            r.open_from(Side::Private),
            r.read_from(Side::Public).len() == 0,
            r.read_from(Side::Private).len() == 0,
            r.last_activity() == now,
            r.idle_timeout() == idle_timeout,
    {
        Splice {
            from_public_open: true,
            from_private_open: true,
            done: false,
            last_activity: now,
            idle_timeout,
            read_public: Ghost(Seq::empty()),
            read_private: Ghost(Seq::empty()),
            written_public: Ghost(Seq::empty()),
            written_private: Ghost(Seq::empty()),
        }
    }

    /// Whether the driver should still read from side `s`.
    pub fn is_open_from(&self, s: Side) -> (r: bool)
        ensures
            r == (self.open_from(s) && !self.is_done()),
    {
        let open = match s {
            Side::Public => self.from_public_open,
            Side::Private => self.from_private_open,
        };
        open && !self.done
    }

    pub fn finished(&self) -> (r: bool)
        ensures
            r == self.is_done(),
    {
        self.done
    }

    /// A read from side `from` returned `chunk` at time `now`. A non-empty
    /// chunk is written unchanged to the other side; an empty one is end of
    /// stream, which shuts down writing towards the other side, and closes
    /// the pair once both directions have ended.
    pub fn on_read(&mut self, from: Side, chunk: Vec<u8>, now: u64) -> (r: SpliceAction)
        requires
            old(self).wf(),
        ensures
            final(self).wf(),
            final(self).idle_timeout() == old(self).idle_timeout(),
            old(self).is_done() || !old(self).open_from(from) ==> r == SpliceAction::Nothing && *final(self) == *old(self),
            !old(self).is_done() && old(self).open_from(from) && chunk@.len() > 0 ==> {
                &&& r == (SpliceAction::Write { to: other(from), bytes: chunk })
                &&& final(self).read_from(from) == old(self).read_from(from) + chunk@
                &&& final(self).read_from(other(from)) == old(self).read_from(other(from))
                &&& final(self).open_from(from) && final(self).open_from(other(from)) == old(self).open_from(other(from))
                &&& !final(self).is_done()
                &&& final(self).last_activity() == now
            },
            !old(self).is_done() && old(self).open_from(from) && chunk@.len() == 0 ==> {
                &&& final(self).read_from(from) == old(self).read_from(from)
                &&& final(self).read_from(other(from)) == old(self).read_from(other(from))
                &&& !final(self).open_from(from)
                &&& final(self).open_from(other(from)) == old(self).open_from(other(from))
                &&& final(self).is_done() == !old(self).open_from(other(from))
                &&& r == if old(self).open_from(other(from)) {
                    SpliceAction::ShutdownWrite { to: other(from) }
                } else {
                    SpliceAction::Close
                }
                &&& final(self).last_activity() == now
            },
    {
        let open = match from {
            Side::Public => self.from_public_open,
            Side::Private => self.from_private_open,
        };
        if self.done || !open {
            return SpliceAction::Nothing;
        }
        self.last_activity = now;
        let to = match from {
            Side::Public => Side::Private,
            Side::Private => Side::Public,
        };
        if chunk.len() == 0 {
            match from {
                Side::Public => self.from_public_open = false,
                Side::Private => self.from_private_open = false,
            }
            if !self.from_public_open && !self.from_private_open {
                self.done = true;
                SpliceAction::Close
            } else {
                SpliceAction::ShutdownWrite { to }
            }
        } else {
            match from {
                Side::Public => {
                    self.read_public = Ghost(self.read_public@ + chunk@);
                    self.written_private = Ghost(self.written_private@ + chunk@);
                },
                Side::Private => {
                    self.read_private = Ghost(self.read_private@ + chunk@);
                    self.written_public = Ghost(self.written_public@ + chunk@);
                },
            }
            SpliceAction::Write { to, bytes: chunk }
        }
    }

    /// A read or write on either side failed, or the session carrying the
    /// pair closed: the pair ends and both ends are closed.
    pub fn on_error(&mut self) -> (r: SpliceAction)
        requires
            old(self).wf(),
        ensures
            final(self).wf(),
            final(self).is_done(),
            r == (if old(self).is_done() { SpliceAction::Nothing } else { SpliceAction::Close }),
            final(self).read_from(Side::Public) == old(self).read_from(Side::Public),
            final(self).read_from(Side::Private) == old(self).read_from(Side::Private),
    {
        if self.done {
            return SpliceAction::Nothing;
        }
        self.done = true;
        SpliceAction::Close
    }

    /// The clock reads `now`: a pair with no traffic for the idle timeout
    /// ends itself.
    pub fn on_tick(&mut self, now: u64) -> (r: SpliceAction)
        requires
            old(self).wf(),
        ensures
            final(self).wf(),
            final(self).read_from(Side::Public) == old(self).read_from(Side::Public),
            final(self).read_from(Side::Private) == old(self).read_from(Side::Private),
            !old(self).is_done() && now as int >= old(self).last_activity() as int + old(self).idle_timeout() as int ==> r
                == SpliceAction::Close && final(self).is_done(),
            !(now as int >= old(self).last_activity() as int + old(self).idle_timeout() as int) ==> r == SpliceAction::Nothing
                && *final(self) == *old(self),
            old(self).is_done() ==> r == SpliceAction::Nothing && *final(self) == *old(self),
    {
        if self.done {
            return SpliceAction::Nothing;
        }
        if now >= self.last_activity && now - self.last_activity >= self.idle_timeout {
            self.done = true;
            SpliceAction::Close
        } else {
            SpliceAction::Nothing
        }
    }

    /// Bytes written on one side come out on the other side unmodified and in
    /// order, in both directions, whatever chunks they were read in.
    pub proof fn law_bytes_cross_unchanged(&self)
        requires
            self.wf(),
        ensures
            self.written_to(Side::Private) == self.read_from(Side::Public),
            self.written_to(Side::Public) == self.read_from(Side::Private),
    {
    }
}

} // verus!
