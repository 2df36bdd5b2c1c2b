//! Source ranges and their packing into one engine number.
use vstd::prelude::*;

verus! {

/// Largest offset plus one that a packed range can hold (24 bits).
pub const OFFSET_LIMIT: u32 = 0x100_0000;

/// Largest file-context index plus one that a packed range can hold (11 bits).
pub const CTX_LIMIT: u64 = 0x800;

/// Packed value of a span that was generated by the compiler.
pub const GENERATED_CODE: u64 = 0x800_0000_0000_0000;

/// A source range: start and end offsets in one loaded file.
#[derive(Clone, Copy, Debug, PartialEq, Eq, Structural)]
pub struct Range {
    pub start: u32,
    pub end: u32,
    pub ctx: u64,
}

/// A range in the source, or a mark for code the compiler produced.
#[derive(Clone, Copy, Debug, PartialEq, Eq, Structural)]
pub enum Span {
    Locatable(Range),
    Generated,
}

impl Range {
    /// The range fits in the packed number.
    pub open spec fn representable(self) -> bool {
        self.start < OFFSET_LIMIT && self.end < OFFSET_LIMIT && self.ctx < CTX_LIMIT
    }

    pub open spec fn packed(self) -> int {
        self.ctx * 0x1_0000_0000_0000 + self.end * 0x100_0000 + self.start
    }
}

impl Span {
    pub open spec fn representable(self) -> bool {
        match self {
            Span::Locatable(r) => r.representable(),
            Span::Generated => true,
        }
    }

    /// The number that stands for the span in generated rules.
    pub open spec fn code(self) -> int {
        match self {
            Span::Locatable(r) => r.packed(),
            Span::Generated => GENERATED_CODE as int,
        }
    }
}

/// The span that a packed number stands for, if any.
pub open spec fn span_of_code(n: u64) -> Option<Span> {
    if n == GENERATED_CODE {
        Some(Span::Generated)
    } else if n < GENERATED_CODE && n / 0x1_0000_0000_0000 < CTX_LIMIT {
        Some(Span::Locatable(Range {
            start: (n % 0x100_0000) as u32,
            end: ((n / 0x100_0000) % 0x100_0000) as u32,
            ctx: n / 0x1_0000_0000_0000,
        }))
    } else {
        None
    }
}

/// Packs start, end and context index of a span into one number.
pub fn encode_span(s: Span) -> (r: u64)
    requires
        s.representable(),
    ensures
        r as int == s.code(),
        r <= GENERATED_CODE,
{
    match s {
        Span::Locatable(rg) => {
            let st = rg.start as u64;
            let en = rg.end as u64;
            let cx = rg.ctx;
            assert(cx * 0x1_0000_0000_0000 + en * 0x100_0000 + st < GENERATED_CODE) by (nonlinear_arith)
                requires cx < CTX_LIMIT, en < 0x100_0000, st < 0x100_0000;
            cx * 0x1_0000_0000_0000 + en * 0x100_0000 + st
        },
        Span::Generated => GENERATED_CODE,
    }
}

/// Recovers the span from its packed number.
pub fn decode_span(n: u64) -> (r: Option<Span>)
    ensures
        r == span_of_code(n),
{
    if n == GENERATED_CODE {
        Some(Span::Generated)
    } else if n < GENERATED_CODE && n / 0x1_0000_0000_0000 < CTX_LIMIT {
        Some(Span::Locatable(Range {
            start: (n % 0x100_0000) as u32,
            end: ((n / 0x100_0000) % 0x100_0000) as u32,
            ctx: n / 0x1_0000_0000_0000,
        }))
    } else {
        None
    }
}

/// Decoding a packed span gives back the span, for every representable span.
pub proof fn lemma_span_round_trip(s: Span)
    requires
        s.representable(),
    ensures
        0 <= s.code() <= GENERATED_CODE,
        span_of_code(s.code() as u64) == Some(s),
{
    if let Span::Locatable(rg) = s {
        let st = rg.start as int;
        let en = rg.end as int;
        let cx = rg.ctx as int;
        let n = cx * 0x1_0000_0000_0000 + en * 0x100_0000 + st;
        assert(0 <= n < GENERATED_CODE) by (nonlinear_arith)
            requires 0 <= cx < 0x800, 0 <= en < 0x100_0000, 0 <= st < 0x100_0000, n == cx * 0x1_0000_0000_0000 + en * 0x100_0000 + st;
        assert(n / 0x1_0000_0000_0000 == cx && n % 0x100_0000 == st
            && (n / 0x100_0000) % 0x100_0000 == en) by (nonlinear_arith)
            requires 0 <= cx < 0x800, 0 <= en < 0x100_0000, 0 <= st < 0x100_0000, n == cx * 0x1_0000_0000_0000 + en * 0x100_0000 + st;
    }
}

} // verus!
