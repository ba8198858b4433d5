//! Reading the supply's state: the replies of the status queries, decoded.
use vstd::prelude::*;
use crate::decimal::{Decimal, parse_decimal};
use crate::error::PsuError;
use crate::flags::Flags;

verus! {

/// Contains the current Voltage, Current and Flags of the power supply
#[derive(Debug, Clone, Copy, PartialEq, Eq, Structural)]
pub struct Status {
    /// Flags as reported by the power supply
    pub flags: Flags,
    /// Voltage in volts
    pub voltage: Decimal,
    /// Current in amps
    pub current: Decimal,
    /// Target Voltage in volts
    pub set_voltage: Decimal,
    /// Current Limit in amps
    pub set_current: Decimal,
}

/// A printable ASCII byte, space to tilde.
pub open spec fn is_printable(b: u8) -> bool {
    32 <= b <= 126
}

/// The printable bytes of `s`, in order.
pub open spec fn printable(s: Seq<u8>) -> Seq<u8> {
    s.filter(|b: u8| is_printable(b))
}

/// What the reply to `STATUS?` stands for: the flags of its first byte.
pub open spec fn flags_reply(reply: Seq<u8>) -> Result<Flags, PsuError> {
    if reply.len() == 0 {
        Err(PsuError::EmptyResponse)
    } else {
        Ok(Flags::spec_new(reply[0]))
    }
}

/// What the reply to a numeric query stands for: the decimal number that
/// its printable bytes spell.
pub open spec fn reading_reply(reply: Seq<u8>) -> Result<Decimal, PsuError> {
    if reply.len() == 0 {
        Err(PsuError::EmptyResponse)
    } else {
        match parse_decimal(printable(reply)) {
            Some(d) => Ok(d),
            None => Err(PsuError::Decode),
        }
    }
}

/// Keeps the printable ASCII bytes of `bytes`, in order.
pub fn printable_ascii(bytes: &[u8]) -> (r: Vec<u8>)
    ensures
        r@ == printable(bytes@),
{
    let mut r: Vec<u8> = Vec::new();
    let mut i: usize = 0;
    while i < bytes.len()
        invariant
            0 <= i <= bytes@.len(),
            r@ == printable(bytes@.take(i as int)),
        decreases bytes@.len() - i,
    {
        let b = bytes[i];
        proof {
            assert(bytes@.take(i as int + 1) =~= bytes@.take(i as int).push(b));
            bytes@.take(i as int).lemma_filter_push(b, |b: u8| is_printable(b));
        }
        if 32 <= b && b <= 126 {
            r.push(b);
        }
        i = i + 1;
    }
    assert(bytes@.take(bytes@.len() as int) =~= bytes@);
    r
}

/// Decodes the reply to `STATUS?`.
pub fn decode_flags(reply: &[u8]) -> (r: Result<Flags, PsuError>)
    ensures
        r == flags_reply(reply@),
{
    if reply.len() == 0 {
        Err(PsuError::EmptyResponse)
    } else {
        Ok(Flags::new(reply[0]))
    }
}

/// Decodes the reply to a voltage or current query: bytes outside printable
/// ASCII are dropped, and the rest must be a decimal number.
pub fn decode_reading(reply: &[u8]) -> (r: Result<Decimal, PsuError>)
    ensures
        r == reading_reply(reply@),
{
    if reply.len() == 0 {
        return Err(PsuError::EmptyResponse);
    }
    let text = printable_ascii(reply);
    match Decimal::parse(text.as_slice()) {
        Some(d) => Ok(d),
        None => Err(PsuError::Decode),
    }
}

/// Bytes outside printable ASCII do not change what a numeric reply stands
/// for, wherever they stand in it.
pub proof fn lemma_unprintable_ignored(before: Seq<u8>, after: Seq<u8>, noise: u8)
    requires
        !is_printable(noise),
        before.len() + after.len() > 0,
    ensures
        reading_reply(before + seq![noise] + after) == reading_reply(before + after),
{
    let p = |b: u8| is_printable(b);
    Seq::filter_distributes_over_add(before + seq![noise], after, p);
    Seq::filter_distributes_over_add(before, seq![noise], p);
    Seq::filter_distributes_over_add(before, after, p);
    reveal_with_fuel(Seq::filter, 2);
    assert(seq![noise].filter(p) =~= Seq::<u8>::empty());
    assert(printable(before + seq![noise] + after) =~= printable(before + after));
}

/// Number of queries that make up a status reading.
pub const STATUS_QUERY_COUNT: usize = 5;

/// The query for step `step` of a status reading: the status byte, then
/// measured voltage and current, then their set-points.
pub open spec fn status_query(step: nat) -> Seq<char> {
    if step == 0 {
        seq!['S', 'T', 'A', 'T', 'U', 'S', '?']
    } else if step == 1 {
        seq!['V', 'O', 'U', 'T', '1', '?']
    } else if step == 2 {
        seq!['I', 'O', 'U', 'T', '1', '?']
    } else if step == 3 {
        seq!['V', 'S', 'E', 'T', '1', '?']
    } else {
        seq!['I', 'S', 'E', 'T', '1', '?']
    }
}

/// What to do after a status reading has taken in a reply.
pub enum StatusProgress {
    /// Send the next query, with this reading.
    Pending(StatusQuery),
    /// Every query was answered.
    Done(Status),
    /// A reply could not be decoded; no further query is due.
    Failed(PsuError),
}

/// A status reading in progress: which query is due and what the earlier
/// replies decoded to.
pub struct StatusQuery {
    step: usize,
    flags: Flags,
    readings: Vec<Decimal>,
}

impl StatusQuery {
    /// How many replies have been taken in.
    pub closed spec fn spec_step(&self) -> nat {
        self.step as nat
    }

    /// The flags decoded from the first reply, once it is in.
    pub closed spec fn spec_flags(&self) -> Flags {
        self.flags
    }

    /// The numbers decoded from the replies after the first.
    pub closed spec fn spec_readings(&self) -> Seq<Decimal> {
        self.readings@
    }

    /// The reading is consistent: one number for each reply after the first.
    pub open spec fn wf(&self) -> bool {
        &&& self.spec_step() < STATUS_QUERY_COUNT
        &&& self.spec_readings().len() + 1 == self.spec_step() || self.spec_step() == 0
            && self.spec_readings().len() == 0
    }

    /// A reading with no query answered yet.
    pub fn new() -> (r: StatusQuery)
        ensures
            r.wf(),
            r.spec_step() == 0,
    {
        StatusQuery { step: 0, flags: Flags::new(0), readings: Vec::new() }
    }

    /// The query to send next.
    pub fn next_query(&self) -> (r: &'static str)
        requires
            self.wf(),
        ensures
            r@ == status_query(self.spec_step()),
    {
        proof {
            reveal_strlit("STATUS?");
            reveal_strlit("VOUT1?");
            reveal_strlit("IOUT1?");
            reveal_strlit("VSET1?");
            reveal_strlit("ISET1?");
        }
        let r = if self.step == 0 {
            "STATUS?"
        } else if self.step == 1 {
            "VOUT1?"
        } else if self.step == 2 {
            "IOUT1?"
        } else if self.step == 3 {
            "VSET1?"
        } else {
            "ISET1?"
        };
        assert(r@ =~= status_query(self.spec_step()));
        r
    }

    /// Takes in the reply to the query that was due. The first reply gives
    /// the flags, each later one a number; the first reply that does not
    /// decode ends the reading with its error, and the fifth completes it.
    pub fn on_reply(self, reply: &[u8]) -> (r: StatusProgress)
        requires
            self.wf(),
        ensures
            self.spec_step() == 0 ==> match flags_reply(reply@) {
                Err(e) => r == StatusProgress::Failed(e),
                Ok(f) => r matches StatusProgress::Pending(q) && q.wf() && q.spec_step() == 1
                    && q.spec_flags() == f,
            },
            0 < self.spec_step() < 4 ==> match reading_reply(reply@) {
                Err(e) => r == StatusProgress::Failed(e),
                Ok(d) => r matches StatusProgress::Pending(q) && q.wf() && q.spec_step()
                    == self.spec_step() + 1 && q.spec_flags() == self.spec_flags()
                    && q.spec_readings() == self.spec_readings().push(d),
            },
            self.spec_step() == 4 ==> match reading_reply(reply@) {
                Err(e) => r == StatusProgress::Failed(e),
                Ok(d) => r == StatusProgress::Done(
                    Status {
                        flags: self.spec_flags(),
                        voltage: self.spec_readings()[0],
                        current: self.spec_readings()[1],
                        set_voltage: self.spec_readings()[2],
                        set_current: d,
                    },
                ),
            },
    {
        if self.step == 0 {
            match decode_flags(reply) {
                Err(e) => StatusProgress::Failed(e),
                Ok(f) => StatusProgress::Pending(
                    StatusQuery { step: 1, flags: f, readings: self.readings },
                ),
            }
        } else {
            match decode_reading(reply) {
                Err(e) => StatusProgress::Failed(e),
                Ok(d) => {
                    if self.step == 4 {
                        StatusProgress::Done(
                            Status {
                                flags: self.flags,
                                voltage: self.readings[0],
                                current: self.readings[1],
                                set_voltage: self.readings[2],
                                set_current: d,
                            },
                        )
                    } else {
                        let mut readings = self.readings;
                        readings.push(d);
                        StatusProgress::Pending(
                            StatusQuery { step: self.step + 1, flags: self.flags, readings },
                        )
                    }
                },
            }
        }
    }
}

} // verus!
