//! Byte-oriented escape-sequence parser.
//!
//! The parser turns the raw byte stream of the shell channel into a series
//! of terminal actions: printable characters (decoded from UTF-8), C0
//! control bytes, CSI sequences with their numeric parameters, and plain
//! escape dispatches. Malformed or unrecognized input never fails; it is
//! skipped, and invalid UTF-8 prints a replacement character.
//!
//! Each step of the machine is specified by [`parser_step`], and the
//! executable [`Parser::advance`] is proved to follow it exactly.

use vstd::prelude::*;

verus! {

/// The states of the escape-sequence machine.
#[derive(Clone, Copy, PartialEq, Eq, Structural, Debug)]
pub enum PState {
    /// Plain text; bytes print or execute.
    Ground,
    /// After an escape byte.
    Escape,
    /// After an escape byte and at least one intermediate byte.
    EscInter,
    /// Right after a control-sequence introducer.
    CsiEntry,
    /// Collecting numeric parameters of a control sequence.
    CsiParam,
    /// Collecting intermediate bytes of a control sequence.
    CsiInter,
    /// A malformed control sequence, consumed without effect.
    CsiIgnore,
    /// An operating-system-command string, consumed without effect.
    Osc,
    /// A device-control or application string, consumed without effect.
    SkipStr,
    /// In the middle of a multi-byte UTF-8 character.
    Utf8,
}

/// One action the parser hands to the terminal.
#[derive(Debug)]
pub enum Perform {
    /// Print one decoded character.
    Print(char),
    /// Execute one C0 control byte.
    Execute(u8),
    /// A complete control sequence: parameters, whether the private `?`
    /// marker was present, and the final byte.
    Csi(Vec<u16>, bool, u8),
    /// A plain escape dispatch with its final byte.
    Esc(u8),
}

/// The mathematical counterpart of [`Perform`].
pub enum PerformS {
    Print(char),
    Execute(u8),
    Csi(Seq<u16>, bool, u8),
    Esc(u8),
}

impl View for Perform {
    type V = PerformS;

    open spec fn view(&self) -> PerformS {
        match self {
            Perform::Print(c) => PerformS::Print(*c),
            Perform::Execute(b) => PerformS::Execute(*b),
            Perform::Csi(ps, q, a) => PerformS::Csi(ps@, *q, *a),
            Perform::Esc(b) => PerformS::Esc(*b),
        }
    }
}

/// The view of an optional action.
pub open spec fn opt_perform_view(a: Option<Perform>) -> Option<PerformS> {
    match a {
        Some(p) => Some(p@),
        None => None,
    }
}

/// The mathematical state of the parser.
pub struct ParserM {
    pub state: PState,
    /// Completed parameters of the current control sequence.
    pub params: Seq<u16>,
    /// The parameter currently being accumulated.
    pub cur: u16,
    /// Whether the private `?` marker was seen.
    pub q: bool,
    /// Whether the rest of the current parameter's subparameters are skipped.
    pub skip_sub: bool,
    /// The partial code point of a multi-byte UTF-8 character.
    pub cp: u32,
    /// How many continuation bytes are still expected.
    pub rem: u8,
    /// Inclusive bounds the next continuation byte must fall in.
    pub lo: u8,
    pub hi: u8,
}

/// The escape-sequence parser: state plus parameter accumulators.
pub struct Parser {
    state: PState,
    params: Vec<u16>,
    cur: u16,
    q: bool,
    skip_sub: bool,
    cp: u32,
    rem: u8,
    lo: u8,
    hi: u8,
}

impl View for Parser {
    type V = ParserM;

    closed spec fn view(&self) -> ParserM {
        ParserM {
            state: self.state,
            params: self.params@,
            cur: self.cur,
            q: self.q,
            skip_sub: self.skip_sub,
            cp: self.cp,
            rem: self.rem,
            lo: self.lo,
            hi: self.hi,
        }
    }
}

/// The state a fresh parser starts in.
pub open spec fn parser_init() -> ParserM {
    ParserM {
        state: PState::Ground,
        params: Seq::empty(),
        cur: 0,
        q: false,
        skip_sub: false,
        cp: 0,
        rem: 0,
        lo: 0x80,
        hi: 0xBF,
    }
}

/// The replacement character printed for invalid UTF-8.
pub open spec fn replacement_char() -> char {
    '\u{FFFD}'
}

/// At most 32 parameters are kept; further ones are dropped.
pub open spec fn max_params() -> int {
    32
}

/// One more decimal digit of a parameter, saturating at the largest value.
pub open spec fn sat_param(cur: u16, d: u8) -> u16 {
    if cur * 10 + d > 0xFFFF {
        0xFFFF
    } else {
        (cur * 10 + d) as u16
    }
}

/// The parameter list handed to a dispatch: the completed parameters plus
/// the one being accumulated, unless the list is already full.
pub open spec fn dispatch_params(params: Seq<u16>, cur: u16) -> Seq<u16> {
    if params.len() < max_params() {
        params.push(cur)
    } else {
        params
    }
}

/// Whether a byte is a C0 control executed in place (escape and
/// cancellation bytes are handled separately).
pub open spec fn is_inline_control(b: u8) -> bool {
    b <= 0x17 || b == 0x19 || (0x1C <= b && b <= 0x1F)
}

/// The parser state entered right after a control-sequence introducer.
pub open spec fn csi_start(p: ParserM) -> ParserM {
    ParserM { state: PState::CsiEntry, params: Seq::empty(), cur: 0, q: false, skip_sub: false, ..p }
}

/// Ground-state handling of one byte: print, execute, or start of an
/// escape sequence or a multi-byte UTF-8 character.
pub open spec fn ground_step(p: ParserM, b: u8) -> (ParserM, Option<PerformS>) {
    if b < 0x20 {
        (p, Some(PerformS::Execute(b)))
    } else if b <= 0x7F {
        (p, Some(PerformS::Print(b as char)))
    } else if 0xC2 <= b && b <= 0xDF {
        (ParserM { state: PState::Utf8, cp: (b - 0xC0) as u32, rem: 1, lo: 0x80, hi: 0xBF, ..p }, None)
    } else if b == 0xE0 {
        (ParserM { state: PState::Utf8, cp: 0, rem: 2, lo: 0xA0, hi: 0xBF, ..p }, None)
    } else if b == 0xED {
        (ParserM { state: PState::Utf8, cp: 0x0D, rem: 2, lo: 0x80, hi: 0x9F, ..p }, None)
    } else if 0xE1 <= b && b <= 0xEF {
        (ParserM { state: PState::Utf8, cp: (b - 0xE0) as u32, rem: 2, lo: 0x80, hi: 0xBF, ..p }, None)
    } else if b == 0xF0 {
        (ParserM { state: PState::Utf8, cp: 0, rem: 3, lo: 0x90, hi: 0xBF, ..p }, None)
    } else if 0xF1 <= b && b <= 0xF3 {
        (ParserM { state: PState::Utf8, cp: (b - 0xF0) as u32, rem: 3, lo: 0x80, hi: 0xBF, ..p }, None)
    } else if b == 0xF4 {
        (ParserM { state: PState::Utf8, cp: 4, rem: 3, lo: 0x80, hi: 0x8F, ..p }, None)
    } else {
        (p, Some(PerformS::Print(replacement_char())))
    }
}

/// The full transition of the parser on one byte.
pub open spec fn parser_step(p: ParserM, b: u8) -> (ParserM, Option<PerformS>) {
    if b == 0x1B {
        (ParserM { state: PState::Escape, ..p }, None)
    } else if b == 0x18 || b == 0x1A {
        (ParserM { state: PState::Ground, ..p }, Some(PerformS::Execute(b)))
    } else {
        match p.state {
            PState::Ground => ground_step(p, b),
            PState::Utf8 => {
                if p.lo <= b && b <= p.hi {
                    let cp = p.cp * 64 + (b - 0x80);
                    if p.rem == 1 {
                        (
                            ParserM { state: PState::Ground, cp: cp as u32, rem: 0, lo: 0x80, hi: 0xBF, ..p },
                            Some(PerformS::Print(cp as u32 as char)),
                        )
                    } else {
                        (
                            ParserM {
                                state: PState::Utf8,
                                cp: cp as u32,
                                rem: (p.rem - 1) as u8,
                                lo: 0x80,
                                hi: 0xBF,
                                ..p
                            },
                            None,
                        )
                    }
                } else {
                    (
                        ParserM { state: PState::Ground, rem: 0, ..p },
                        Some(PerformS::Print(replacement_char())),
                    )
                }
            },
            PState::Escape => {
                if is_inline_control(b) {
                    (p, Some(PerformS::Execute(b)))
                } else if 0x20 <= b && b <= 0x2F {
                    (ParserM { state: PState::EscInter, ..p }, None)
                } else if b == 0x5B {
                    (csi_start(p), None)
                } else if b == 0x5D {
                    (ParserM { state: PState::Osc, ..p }, None)
                } else if b == 0x50 || b == 0x58 || b == 0x5E || b == 0x5F {
                    (ParserM { state: PState::SkipStr, ..p }, None)
                } else if 0x30 <= b && b <= 0x7E {
                    (ParserM { state: PState::Ground, ..p }, Some(PerformS::Esc(b)))
                } else {
                    (p, None)
                }
            },
            PState::EscInter => {
                if is_inline_control(b) {
                    (p, Some(PerformS::Execute(b)))
                } else if 0x20 <= b && b <= 0x2F {
                    (p, None)
                } else if 0x30 <= b && b <= 0x7E {
                    (ParserM { state: PState::Ground, ..p }, Some(PerformS::Esc(b)))
                } else {
                    (p, None)
                }
            },
            PState::CsiEntry => {
                if is_inline_control(b) {
                    (p, Some(PerformS::Execute(b)))
                } else if 0x30 <= b && b <= 0x39 {
                    (
                        ParserM { state: PState::CsiParam, cur: sat_param(p.cur, (b - 0x30) as u8), ..p },
                        None,
                    )
                } else if b == 0x3B {
                    (ParserM { state: PState::CsiParam, params: p.params.push(p.cur), cur: 0, ..p }, None)
                } else if b == 0x3A {
                    (ParserM { state: PState::CsiParam, skip_sub: true, ..p }, None)
                } else if b == 0x3F {
                    (ParserM { state: PState::CsiParam, q: true, ..p }, None)
                } else if 0x3C <= b && b <= 0x3E {
                    (ParserM { state: PState::CsiParam, ..p }, None)
                } else if 0x20 <= b && b <= 0x2F {
                    (ParserM { state: PState::CsiInter, ..p }, None)
                } else if 0x40 <= b && b <= 0x7E {
                    (
                        ParserM { state: PState::Ground, ..p },
                        Some(PerformS::Csi(dispatch_params(p.params, p.cur), p.q, b)),
                    )
                } else {
                    (p, None)
                }
            },
            PState::CsiParam => {
                if is_inline_control(b) {
                    (p, Some(PerformS::Execute(b)))
                } else if 0x30 <= b && b <= 0x39 {
                    if p.skip_sub {
                        (p, None)
                    } else {
                        (ParserM { cur: sat_param(p.cur, (b - 0x30) as u8), ..p }, None)
                    }
                } else if b == 0x3B {
                    if p.params.len() < max_params() - 1 {
                        (ParserM { params: p.params.push(p.cur), cur: 0, skip_sub: false, ..p }, None)
                    } else {
                        (ParserM { cur: 0, skip_sub: false, ..p }, None)
                    }
                } else if b == 0x3A {
                    (ParserM { skip_sub: true, ..p }, None)
                } else if 0x3C <= b && b <= 0x3F {
                    (ParserM { state: PState::CsiIgnore, ..p }, None)
                } else if 0x20 <= b && b <= 0x2F {
                    (ParserM { state: PState::CsiInter, ..p }, None)
                } else if 0x40 <= b && b <= 0x7E {
                    (
                        ParserM { state: PState::Ground, ..p },
                        Some(PerformS::Csi(dispatch_params(p.params, p.cur), p.q, b)),
                    )
                } else {
                    (p, None)
                }
            },
            PState::CsiInter => {
                if is_inline_control(b) {
                    (p, Some(PerformS::Execute(b)))
                } else if 0x20 <= b && b <= 0x2F {
                    (p, None)
                } else if 0x30 <= b && b <= 0x3F {
                    (ParserM { state: PState::CsiIgnore, ..p }, None)
                } else if 0x40 <= b && b <= 0x7E {
                    (
                        ParserM { state: PState::Ground, ..p },
                        Some(PerformS::Csi(dispatch_params(p.params, p.cur), p.q, b)),
                    )
                } else {
                    (p, None)
                }
            },
            PState::CsiIgnore => {
                if is_inline_control(b) {
                    (p, Some(PerformS::Execute(b)))
                } else if 0x40 <= b && b <= 0x7E {
                    (ParserM { state: PState::Ground, ..p }, None)
                } else {
                    (p, None)
                }
            },
            PState::Osc => {
                if b == 0x07 {
                    (ParserM { state: PState::Ground, ..p }, None)
                } else {
                    (p, None)
                }
            },
            PState::SkipStr => (p, None),
        }
    }
}

/// The smallest code point an in-flight multi-byte character can complete to.
pub open spec fn utf8_min(p: ParserM) -> int {
    if p.rem == 1 {
        p.cp * 64 + (p.lo - 0x80)
    } else if p.rem == 2 {
        (p.cp * 64 + (p.lo - 0x80)) * 64
    } else {
        ((p.cp * 64 + (p.lo - 0x80)) * 64) * 64
    }
}

/// The largest code point an in-flight multi-byte character can complete to.
pub open spec fn utf8_max(p: ParserM) -> int {
    if p.rem == 1 {
        p.cp * 64 + (p.hi - 0x80)
    } else if p.rem == 2 {
        (p.cp * 64 + (p.hi - 0x80)) * 64 + 63
    } else {
        ((p.cp * 64 + (p.hi - 0x80)) * 64 + 63) * 64 + 63
    }
}

/// An in-flight multi-byte character can only complete to a Unicode scalar
/// value: its reachable range avoids the surrogates and the values beyond
/// the last code point.
pub open spec fn utf8_inv(p: ParserM) -> bool {
    p.state == PState::Utf8 ==> {
        &&& 1 <= p.rem <= 3
        &&& 0x80 <= p.lo <= p.hi <= 0xBF
        &&& utf8_max(p) <= 0x10FFFF
        &&& (utf8_max(p) < 0xD800 || utf8_min(p) >= 0xE000)
    }
}

/// The invariant holds of a fresh parser and is kept by every step.
pub proof fn parser_step_preserves_utf8_inv(p: ParserM, b: u8)
    requires
        utf8_inv(p),
    ensures
        utf8_inv(parser_step(p, b).0),
{
}

/// A completed code point is always a Unicode scalar value.
pub proof fn parser_step_prints_scalars(p: ParserM, b: u8)
    requires
        utf8_inv(p),
        p.state == PState::Utf8,
        p.rem == 1,
        p.lo <= b <= p.hi,
    ensures
        vstd::utf8::is_scalar((p.cp * 64 + (b - 0x80)) as u32),
{
}

impl Parser {
    /// A fresh parser in the ground state.
    pub fn new() -> (r: Self)
        ensures
            r@ == parser_init(),
    {
        Parser {
            state: PState::Ground,
            params: Vec::new(),
            cur: 0,
            q: false,
            skip_sub: false,
            cp: 0,
            rem: 0,
            lo: 0x80,
            hi: 0xBF,
        }
    }

    fn push_param(&mut self)
        ensures
            final(self)@ == (ParserM { params: old(self)@.params.push(old(self)@.cur), cur: 0u16, ..old(self)@ }),
    {
        let c = self.cur;
        self.params.push(c);
        self.cur = 0;
    }

    fn add_digit(&mut self, b: u8)
        requires
            0x30 <= b <= 0x39,
        ensures
            final(self)@ == (ParserM { cur: sat_param(old(self)@.cur, (b - 0x30) as u8), ..old(self)@ }),
    {
        let d: u32 = (b - 0x30) as u32;
        let v: u32 = self.cur as u32 * 10 + d;
        self.cur = if v > 0xFFFF {
            0xFFFF
        } else {
            v as u16
        };
    }

    /// Feed one byte; the parser follows [`parser_step`] exactly.
    pub fn advance(&mut self, b: u8) -> (act: Option<Perform>)
        requires
            utf8_inv(old(self)@),
        ensures
            final(self)@ == parser_step(old(self)@, b).0,
            opt_perform_view(act) == parser_step(old(self)@, b).1,
            utf8_inv(final(self)@),
    {
        proof {
            parser_step_preserves_utf8_inv(old(self)@, b);
        }
        if b == 0x1B {
            self.state = PState::Escape;
            return None;
        }
        if b == 0x18 || b == 0x1A {
            self.state = PState::Ground;
            return Some(Perform::Execute(b));
        }
        match self.state {
            PState::Ground => self.ground_advance(b),
            PState::Utf8 => {
                if self.lo <= b && b <= self.hi {
                    proof {
                        if self.rem == 1 {
                            parser_step_prints_scalars(self@, b);
                        }
                    }
                    let cp = self.cp * 64 + (b - 0x80) as u32;
                    self.cp = cp;
                    self.lo = 0x80;
                    self.hi = 0xBF;
                    if self.rem == 1 {
                        self.rem = 0;
                        self.state = PState::Ground;
                        Some(Perform::Print(scalar_to_char(cp)))
                    } else {
                        self.rem = self.rem - 1;
                        None
                    }
                } else {
                    self.rem = 0;
                    self.state = PState::Ground;
                    Some(Perform::Print('\u{FFFD}'))
                }
            },
            PState::Escape => {
                if b <= 0x17 || b == 0x19 || (0x1C <= b && b <= 0x1F) {
                    Some(Perform::Execute(b))
                } else if 0x20 <= b && b <= 0x2F {
                    self.state = PState::EscInter;
                    None
                } else if b == 0x5B {
                    self.state = PState::CsiEntry;
                    self.params = Vec::new();
                    self.cur = 0;
                    self.q = false;
                    self.skip_sub = false;
                    None
                } else if b == 0x5D {
                    self.state = PState::Osc;
                    None
                } else if b == 0x50 || b == 0x58 || b == 0x5E || b == 0x5F {
                    self.state = PState::SkipStr;
                    None
                } else if 0x30 <= b && b <= 0x7E {
                    self.state = PState::Ground;
                    Some(Perform::Esc(b))
                } else {
                    None
                }
            },
            PState::EscInter => {
                if b <= 0x17 || b == 0x19 || (0x1C <= b && b <= 0x1F) {
                    Some(Perform::Execute(b))
                } else if 0x20 <= b && b <= 0x2F {
                    None
                } else if 0x30 <= b && b <= 0x7E {
                    self.state = PState::Ground;
                    Some(Perform::Esc(b))
                } else {
                    None
                }
            },
            PState::CsiEntry => {
                if b <= 0x17 || b == 0x19 || (0x1C <= b && b <= 0x1F) {
                    Some(Perform::Execute(b))
                } else if 0x30 <= b && b <= 0x39 {
                    self.add_digit(b);
                    self.state = PState::CsiParam;
                    None
                } else if b == 0x3B {
                    self.push_param();
                    self.state = PState::CsiParam;
                    None
                } else if b == 0x3A {
                    self.skip_sub = true;
                    self.state = PState::CsiParam;
                    None
                } else if b == 0x3F {
                    self.q = true;
                    self.state = PState::CsiParam;
                    None
                } else if 0x3C <= b && b <= 0x3E {
                    self.state = PState::CsiParam;
                    None
                } else if 0x20 <= b && b <= 0x2F {
                    self.state = PState::CsiInter;
                    None
                } else if 0x40 <= b && b <= 0x7E {
                    self.state = PState::Ground;
                    Some(Perform::Csi(self.copy_dispatch_params(), self.q, b))
                } else {
                    None
                }
            },
            PState::CsiParam => {
                if b <= 0x17 || b == 0x19 || (0x1C <= b && b <= 0x1F) {
                    Some(Perform::Execute(b))
                } else if 0x30 <= b && b <= 0x39 {
                    if !self.skip_sub {
                        self.add_digit(b);
                    }
                    None
                } else if b == 0x3B {
                    if self.params.len() < 31 {
                        self.push_param();
                    } else {
                        self.cur = 0;
                    }
                    self.skip_sub = false;
                    None
                } else if b == 0x3A {
                    self.skip_sub = true;
                    None
                } else if 0x3C <= b && b <= 0x3F {
                    self.state = PState::CsiIgnore;
                    None
                } else if 0x20 <= b && b <= 0x2F {
                    self.state = PState::CsiInter;
                    None
                } else if 0x40 <= b && b <= 0x7E {
                    self.state = PState::Ground;
                    Some(Perform::Csi(self.copy_dispatch_params(), self.q, b))
                } else {
                    None
                }
            },
            PState::CsiInter => {
                if b <= 0x17 || b == 0x19 || (0x1C <= b && b <= 0x1F) {
                    Some(Perform::Execute(b))
                } else if 0x20 <= b && b <= 0x2F {
                    None
                } else if 0x30 <= b && b <= 0x3F {
                    self.state = PState::CsiIgnore;
                    None
                } else if 0x40 <= b && b <= 0x7E {
                    self.state = PState::Ground;
                    Some(Perform::Csi(self.copy_dispatch_params(), self.q, b))
                } else {
                    None
                }
            },
            PState::CsiIgnore => {
                if b <= 0x17 || b == 0x19 || (0x1C <= b && b <= 0x1F) {
                    Some(Perform::Execute(b))
                } else if 0x40 <= b && b <= 0x7E {
                    self.state = PState::Ground;
                    None
                } else {
                    None
                }
            },
            PState::Osc => {
                if b == 0x07 {
                    self.state = PState::Ground;
                }
                None
            },
            PState::SkipStr => None,
        }
    }

    fn ground_advance(&mut self, b: u8) -> (act: Option<Perform>)
        requires
            old(self)@.state == PState::Ground,
            b != 0x1B,
            b != 0x18,
            b != 0x1A,
        ensures
            final(self)@ == ground_step(old(self)@, b).0,
            opt_perform_view(act) == ground_step(old(self)@, b).1,
    {
        if b < 0x20 {
            Some(Perform::Execute(b))
        } else if b <= 0x7F {
            Some(Perform::Print(b as char))
        } else if 0xC2 <= b && b <= 0xDF {
            self.begin_utf8((b - 0xC0) as u32, 1, 0x80, 0xBF);
            None
        } else if b == 0xE0 {
            self.begin_utf8(0, 2, 0xA0, 0xBF);
            None
        } else if b == 0xED {
            self.begin_utf8(0x0D, 2, 0x80, 0x9F);
            None
        } else if 0xE1 <= b && b <= 0xEF {
            self.begin_utf8((b - 0xE0) as u32, 2, 0x80, 0xBF);
            None
        } else if b == 0xF0 {
            self.begin_utf8(0, 3, 0x90, 0xBF);
            None
        } else if 0xF1 <= b && b <= 0xF3 {
            self.begin_utf8((b - 0xF0) as u32, 3, 0x80, 0xBF);
            None
        } else if b == 0xF4 {
            self.begin_utf8(4, 3, 0x80, 0x8F);
            None
        } else {
            Some(Perform::Print('\u{FFFD}'))
        }
    }

    fn begin_utf8(&mut self, cp: u32, rem: u8, lo: u8, hi: u8)
        ensures
            final(self)@ == (ParserM {
                state: PState::Utf8,
                cp: cp,
                rem: rem,
                lo: lo,
                hi: hi,
                ..old(self)@
            }),
    {
        self.state = PState::Utf8;
        self.cp = cp;
        self.rem = rem;
        self.lo = lo;
        self.hi = hi;
    }

    fn copy_dispatch_params(&self) -> (ps: Vec<u16>)
        ensures
            ps@ == dispatch_params(self@.params, self@.cur),
    {
        let mut ps: Vec<u16> = Vec::new();
        let n = self.params.len();
        for i in 0..n
            invariant
                n == self.params.len(),
                ps@ == self.params@.subrange(0, i as int),
        {
            ps.push(self.params[i]);
            proof {
                assert(ps@ =~= self.params@.subrange(0, i + 1));
            }
        }
        proof {
            assert(ps@ =~= self.params@);
        }
        if ps.len() < 32 {
            ps.push(self.cur);
        }
        ps
    }
}

/// Relies on `char::from_u32`: a Unicode scalar value converts to the
/// character with that code.
#[verifier::external_body]
fn scalar_to_char(cp: u32) -> (c: char)
    requires
        vstd::utf8::is_scalar(cp),
    ensures
        c == cp as char,
{
    char::from_u32(cp).unwrap_or('\u{FFFD}')
}

} // verus!
