use vstd::prelude::*;

use crate::text::joined;

verus! {

/// Frames in one timecode second at a given rate, and the real rate in
/// thousandths of a frame per second (29.97 is 29970).
pub open spec fn spec_fps(fr: Framerate) -> nat {
    match fr {
        Framerate::Fps24 => 24,
        Framerate::Fps25 => 25,
        Framerate::Fps30 => 30,
        Framerate::Fps29_97 => 30,
        Framerate::Fps60 => 60,
    }
}

pub open spec fn spec_fps_millis(fr: Framerate) -> nat {
    match fr {
        Framerate::Fps24 => 24000,
        Framerate::Fps25 => 25000,
        Framerate::Fps30 => 30000,
        Framerate::Fps29_97 => 29970,
        Framerate::Fps60 => 60000,
    }
}

/// Number of distinct hour values the timecode counter holds before it wraps.
pub const HOUR_WRAP: u64 = 256;

/// Supported frame rates; `Fps29_97` is the drop-frame label, counted with
/// thirty frames per timecode second.
#[derive(Debug, Clone, Copy, PartialEq, Eq, Structural)]
pub enum Framerate {
    Fps24,
    Fps25,
    Fps30,
    Fps29_97,
    Fps60,
}

impl Framerate {
    /// The integer frame-count divisor of this rate.
    pub fn frames_per_second(&self) -> (r: u8)
        ensures
            r as nat == spec_fps(*self),
    {
        match self {
            Framerate::Fps24 => 24,
            Framerate::Fps25 => 25,
            Framerate::Fps30 => 30,
            Framerate::Fps29_97 => 30,
            Framerate::Fps60 => 60,
        }
    }

    /// The real-valued rate, scaled by one thousand.
    pub fn fps_millis(&self) -> (r: u32)
        ensures
            r as nat == spec_fps_millis(*self),
    {
        match self {
            Framerate::Fps24 => 24000,
            Framerate::Fps25 => 25000,
            Framerate::Fps30 => 30000,
            Framerate::Fps29_97 => 29970,
            Framerate::Fps60 => 60000,
        }
    }
}

/// An `H:M:S:F` position at a frame rate.
#[derive(Debug, Clone, Copy, PartialEq, Eq, Structural)]
pub struct Timecode {
    pub hours: u8,
    pub minutes: u8,
    pub seconds: u8,
    pub frames: u8,
    pub framerate: Framerate,
}

impl Timecode {
    /// Minutes and seconds below sixty, frames below the rate's divisor.
    pub open spec fn wf(self) -> bool {
        &&& self.minutes < 60
        &&& self.seconds < 60
        &&& (self.frames as nat) < spec_fps(self.framerate)
    }

    pub open spec fn whole_seconds(self) -> nat {
        self.hours as nat * 3600 + self.minutes as nat * 60 + self.seconds as nat
    }

    pub open spec fn total_frames(self) -> nat {
        self.whole_seconds() * spec_fps(self.framerate) + self.frames as nat
    }

    /// Whole seconds in milliseconds, plus the frames converted at the real
    /// rate and rounded down.
    pub open spec fn millis(self) -> nat {
        self.whole_seconds() * 1000 + (self.frames as nat * 1_000_000) / spec_fps_millis(
            self.framerate,
        )
    }

    pub open spec fn spec_zero(fr: Framerate) -> Timecode {
        Timecode { hours: 0, minutes: 0, seconds: 0, frames: 0, framerate: fr }
    }

    /// The timecode `ms` milliseconds from zero; hours wrap at `HOUR_WRAP`.
    pub open spec fn spec_from_millis(ms: nat, fr: Framerate) -> Timecode {
        let secs = ms / 1000;
        Timecode {
            hours: ((secs / 3600) % 256) as u8,
            minutes: ((secs % 3600) / 60) as u8,
            seconds: (secs % 60) as u8,
            frames: (((ms % 1000) * spec_fps_millis(fr)) / 1_000_000) as u8,
            framerate: fr,
        }
    }

    /// The timecode `t` frames from zero; hours wrap at `HOUR_WRAP`.
    pub open spec fn spec_from_total(t: nat, fr: Framerate) -> Timecode {
        let fps = spec_fps(fr);
        let secs = t / fps;
        Timecode {
            hours: ((secs / 3600) % 256) as u8,
            minutes: ((secs / 60) % 60) as u8,
            seconds: (secs % 60) as u8,
            frames: (t % fps) as u8,
            framerate: fr,
        }
    }

    /// Frame count before the hour counter wraps.
    pub open spec fn frame_capacity(fr: Framerate) -> nat {
        256 * 3600 * spec_fps(fr)
    }

    pub fn new(hours: u8, minutes: u8, seconds: u8, frames: u8, framerate: Framerate) -> (r: Self)
        ensures
            r == (Timecode { hours, minutes, seconds, frames, framerate }),
    {
        Timecode { hours, minutes, seconds, frames, framerate }
    }

    pub fn zero(framerate: Framerate) -> (r: Self)
        ensures
            r == Self::spec_zero(framerate),
            r.wf(),
    {
        Timecode { hours: 0, minutes: 0, seconds: 0, frames: 0, framerate }
    }

    /// Truncating conversion: frames are `floor((ms mod 1000) / 1000 * fps)`
    /// with the real rate, which approximates drop-frame by truncation.
    pub fn from_milliseconds(ms: u64, framerate: Framerate) -> (r: Self)
        ensures
            r == Self::spec_from_millis(ms as nat, framerate),
            r.wf(),
    {
        let total_seconds = ms / 1000;
        let remaining_ms = ms % 1000;
        let hours = ((total_seconds / 3600) % HOUR_WRAP) as u8;
        let minutes = ((total_seconds % 3600) / 60) as u8;
        let seconds = (total_seconds % 60) as u8;
        let fps_millis = framerate.fps_millis() as u64;
        assert(remaining_ms * fps_millis <= 999 * 60000) by (nonlinear_arith)
            requires
                remaining_ms < 1000,
                fps_millis <= 60000,
        ;
        let frame_index = remaining_ms * fps_millis / 1_000_000;
        proof {
            lemma_frame_of_millis(remaining_ms as nat, framerate);
        }
        let frames = frame_index as u8;
        Timecode { hours, minutes, seconds, frames, framerate }
    }

    pub fn to_milliseconds(&self) -> (r: u64)
        ensures
            r as nat == self.millis(),
    {
        let total_seconds = (self.hours as u64 * 3600) + (self.minutes as u64 * 60)
            + self.seconds as u64;
        let fps_millis = self.framerate.fps_millis() as u64;
        let frame_ms = self.frames as u64 * 1_000_000 / fps_millis;
        assert(frame_ms <= self.frames as u64 * 1_000_000 / 24000) by {
            vstd::arithmetic::div_mod::lemma_div_is_ordered_by_denominator(
                self.frames as u64 * 1_000_000,
                24000,
                fps_millis as int,
            );
        }
        total_seconds * 1000 + frame_ms
    }

    pub fn to_string(&self) -> (r: String)
        ensures
            r@ == timecode_text(*self),
    {
        let mut text = two_digits(self.hours);
        text.append(":");
        let part = two_digits(self.minutes);
        text.append(part.as_str());
        text.append(":");
        let part = two_digits(self.seconds);
        text.append(part.as_str());
        text.append(":");
        let part = two_digits(self.frames);
        text.append(part.as_str());
        proof {
            reveal_strlit(":");
        }
        text
    }

    /// Moves the position by `frames`, clamping at zero; hours wrap at
    /// `HOUR_WRAP`.
    pub fn add_frames(&mut self, frames: i32)
        ensures
            *final(self) == Self::spec_from_total(
                clamp_frames(old(self).total_frames() as int + frames as int),
                old(self).framerate,
            ),
            final(self).wf(),
            old(self).total_frames() as int + frames as int <= 0 ==> *final(self)
                == Self::spec_zero(old(self).framerate),
            clamp_frames(old(self).total_frames() as int + frames as int) < Self::frame_capacity(
                old(self).framerate,
            ) ==> final(self).total_frames() == clamp_frames(
                old(self).total_frames() as int + frames as int,
            ),
    {
        let current = self.to_total_frames();
        let mut total: i64 = current as i64 + frames as i64;
        if total < 0 {
            total = 0;
        }
        proof {
            lemma_from_total_zero(self.framerate);
        }
        self.from_total_frames(total as u64);
        proof {
            let t = clamp_frames(old(self).total_frames() as int + frames as int);
            if t < Self::frame_capacity(old(self).framerate) {
                lemma_from_total_exact(t, old(self).framerate);
            }
        }
    }

    fn to_total_frames(&self) -> (r: u64)
        ensures
            r as nat == self.total_frames(),
            r <= 60_000_000,
    {
        let total_seconds = (self.hours as u64 * 3600) + (self.minutes as u64 * 60)
            + self.seconds as u64;
        let fps = self.framerate.frames_per_second() as u64;
        assert(total_seconds * fps <= 999_999 * 60) by (nonlinear_arith)
            requires
                total_seconds <= 999_999,
                fps <= 60,
        ;
        total_seconds * fps + self.frames as u64
    }

    fn from_total_frames(&mut self, total_frames: u64)
        ensures
            *final(self) == Self::spec_from_total(total_frames as nat, old(self).framerate),
            final(self).wf(),
    {
        let fps = self.framerate.frames_per_second() as u64;
        self.frames = (total_frames % fps) as u8;
        let total_seconds = total_frames / fps;
        self.seconds = (total_seconds % 60) as u8;
        let total_minutes = total_seconds / 60;
        self.minutes = (total_minutes % 60) as u8;
        let total_hours = total_minutes / 60;
        self.hours = (total_hours % HOUR_WRAP) as u8;
        proof {
            vstd::arithmetic::div_mod::lemma_div_denominator(total_seconds as int, 60, 60);
        }
    }
}

/// A frame count raised to zero when negative.
pub open spec fn clamp_frames(t: int) -> nat {
    if t < 0 {
        0
    } else {
        t as nat
    }
}

/// Decimal digits of `n`, at least two, zero-padded on the left.
pub open spec fn two_digit_text(n: u8) -> Seq<char> {
    if n < 10 {
        seq!['0', digit_char((n % 10) as nat)]
    } else if n < 100 {
        seq![digit_char((n / 10) as nat), digit_char((n % 10) as nat)]
    } else {
        seq![
            digit_char((n / 100) as nat),
            digit_char(((n / 10) % 10) as nat),
            digit_char((n % 10) as nat),
        ]
    }
}

pub open spec fn digit_char(d: nat) -> char {
    if d == 0 { '0' }
    else if d == 1 { '1' }
    else if d == 2 { '2' }
    else if d == 3 { '3' }
    else if d == 4 { '4' }
    else if d == 5 { '5' }
    else if d == 6 { '6' }
    else if d == 7 { '7' }
    else if d == 8 { '8' }
    else { '9' }
}

/// `HH:MM:SS:FF`, each field two digits or more.
pub open spec fn timecode_text(tc: Timecode) -> Seq<char> {
    two_digit_text(tc.hours) + seq![':'] + two_digit_text(tc.minutes) + seq![':']
        + two_digit_text(tc.seconds) + seq![':'] + two_digit_text(tc.frames)
}

/// Decimal digits of `n`, without leading zeros.
pub open spec fn decimal_text(n: nat) -> Seq<char>
    decreases n,
{
    if n < 10 {
        seq![digit_char(n)]
    } else {
        decimal_text(n / 10) + seq![digit_char(n % 10)]
    }
}

/// The digit `d` as text.
fn digit_text(d: u16) -> (r: &'static str)
    requires
        d < 10,
    ensures
        r@ == seq![digit_char(d as nat)],
{
    proof {
        reveal_strlit("0");
        reveal_strlit("1");
        reveal_strlit("2");
        reveal_strlit("3");
        reveal_strlit("4");
        reveal_strlit("5");
        reveal_strlit("6");
        reveal_strlit("7");
        reveal_strlit("8");
        reveal_strlit("9");
        assert(seq!['0'] =~= "0"@);
        assert(seq!['1'] =~= "1"@);
        assert(seq!['2'] =~= "2"@);
        assert(seq!['3'] =~= "3"@);
        assert(seq!['4'] =~= "4"@);
        assert(seq!['5'] =~= "5"@);
        assert(seq!['6'] =~= "6"@);
        assert(seq!['7'] =~= "7"@);
        assert(seq!['8'] =~= "8"@);
        assert(seq!['9'] =~= "9"@);
    }
    if d == 0 {
        "0"
    } else if d == 1 {
        "1"
    } else if d == 2 {
        "2"
    } else if d == 3 {
        "3"
    } else if d == 4 {
        "4"
    } else if d == 5 {
        "5"
    } else if d == 6 {
        "6"
    } else if d == 7 {
        "7"
    } else if d == 8 {
        "8"
    } else {
        "9"
    }
}

/// The decimal digits of `n`.
pub fn decimal_digits(n: u16) -> (r: String)
    ensures
        r@ == decimal_text(n as nat),
    decreases n,
{
    if n < 10 {
        digit_text(n).to_owned()
    } else {
        let mut r = decimal_digits(n / 10);
        r.append(digit_text(n % 10));
        r
    }
}

/// The digits of `n`, padded with a zero to a width of two.
fn two_digits(n: u8) -> (r: String)
    ensures
        r@ == two_digit_text(n),
{
    if n < 10 {
        let r = joined("0", digit_text(n as u16), "");
        proof {
            reveal_strlit("0");
            reveal_strlit("");
            assert(r@ =~= two_digit_text(n));
        }
        r
    } else {
        let r = decimal_digits(n as u16);
        proof {
            reveal_with_fuel(decimal_text, 3);
            if n < 100 {
                assert(r@ =~= two_digit_text(n));
            } else {
                assert((n as nat / 10) / 10 == n as nat / 100);
                assert(r@ =~= two_digit_text(n));
            }
        }
        r
    }
}

proof fn lemma_frame_of_millis(rem: nat, fr: Framerate)
    requires
        rem < 1000,
    ensures
        (rem * spec_fps_millis(fr)) / 1_000_000 < spec_fps(fr),
{
    let f = spec_fps_millis(fr);
    assert(rem * f <= 999 * f) by (nonlinear_arith)
        requires
            rem <= 999,
    ;
    assert((rem * f) / 1_000_000 < spec_fps(fr)) by (nonlinear_arith)
        requires
            rem * f <= 999 * f,
            f == spec_fps(fr) * 1000 || (f == 29970 && spec_fps(fr) == 30),
    ;
}

proof fn lemma_from_total_zero(fr: Framerate)
    ensures
        Timecode::spec_from_total(0, fr) == Timecode::spec_zero(fr),
{
}

/// Below the capacity, decomposing a frame count and summing it back gives
/// the same count.
pub proof fn lemma_from_total_exact(t: nat, fr: Framerate)
    requires
        t < Timecode::frame_capacity(fr),
    ensures
        Timecode::spec_from_total(t, fr).total_frames() == t,
        Timecode::spec_from_total(t, fr).wf(),
{
    let fps = spec_fps(fr);
    let secs = t / fps;
    let tc = Timecode::spec_from_total(t, fr);
    vstd::arithmetic::div_mod::lemma_fundamental_div_mod(t as int, fps as int);
    vstd::arithmetic::div_mod::lemma_fundamental_div_mod(secs as int, 60);
    vstd::arithmetic::div_mod::lemma_fundamental_div_mod((secs / 60) as int, 60);
    vstd::arithmetic::div_mod::lemma_div_denominator(secs as int, 60, 60);
    assert(secs < 256 * 3600) by (nonlinear_arith)
        requires
            t < 256 * 3600 * fps,
            secs == t / fps,
            fps > 0,
    ;
    assert(secs / 3600 < 256);
    assert(tc.hours as nat == secs / 3600);
    assert(tc.whole_seconds() == secs) by (nonlinear_arith)
        requires
            tc.whole_seconds() == tc.hours as nat * 3600 + tc.minutes as nat * 60
                + tc.seconds as nat,
            tc.hours as nat == secs / 3600,
            tc.minutes as nat == (secs / 60) % 60,
            tc.seconds as nat == secs % 60,
            secs == 60 * (secs / 60) + secs % 60,
            secs / 60 == 60 * ((secs / 60) / 60) + (secs / 60) % 60,
            (secs / 60) / 60 == secs / 3600,
    ;
    assert(tc.total_frames() == t) by (nonlinear_arith)
        requires
            tc.total_frames() == tc.whole_seconds() * fps + tc.frames as nat,
            tc.whole_seconds() == secs,
            tc.frames as nat == t % fps,
            t == fps * secs + t % fps,
    ;
}

/// Converting milliseconds to a timecode and back rounds down to the start of
/// the frame, give or take the millisecond dropped when that start is
/// truncated: the result never exceeds `ms`, and falls short by less than one
/// frame duration plus one millisecond. Holds while the hours do not wrap.
pub proof fn lemma_millis_round_trip(ms: nat, fr: Framerate)
    requires
        ms < 256 * 3600 * 1000,
    ensures
        Timecode::spec_from_millis(ms, fr).millis() <= ms,
        (ms - Timecode::spec_from_millis(ms, fr).millis()) * spec_fps_millis(fr) < 1_000_000
            + spec_fps_millis(fr),
{
    let tc = Timecode::spec_from_millis(ms, fr);
    let secs = ms / 1000;
    let rem = ms % 1000;
    let f = spec_fps_millis(fr);
    let frame = (rem * f) / 1_000_000;
    lemma_frame_of_millis(rem, fr);
    vstd::arithmetic::div_mod::lemma_fundamental_div_mod(ms as int, 1000);
    vstd::arithmetic::div_mod::lemma_fundamental_div_mod(secs as int, 60);
    vstd::arithmetic::div_mod::lemma_fundamental_div_mod((secs % 3600) as int, 60);
    vstd::arithmetic::div_mod::lemma_fundamental_div_mod(secs as int, 3600);
    assert(secs < 256 * 3600);
    assert(tc.frames as nat == frame);
    assert(tc.whole_seconds() == secs) by {
        vstd::arithmetic::div_mod::lemma_mod_mod(secs as int, 3600, 60);
        assert(3600 * 60 == 216000);
        assert((secs % 3600) % 60 == secs % 60) by {
            vstd::arithmetic::div_mod::lemma_mod_mod(secs as int, 60, 60);
        }
    }
    let back = (frame * 1_000_000) / f;
    vstd::arithmetic::div_mod::lemma_fundamental_div_mod((rem * f) as int, 1_000_000);
    vstd::arithmetic::div_mod::lemma_fundamental_div_mod((frame * 1_000_000) as int, f as int);
    assert(back <= rem && (rem - back) * f < 1_000_000 + f) by (nonlinear_arith)
        requires
            rem * f == 1_000_000 * frame + (rem * f) % 1_000_000,
            0 <= (rem * f) % 1_000_000 < 1_000_000,
            frame * 1_000_000 == f * back + (frame * 1_000_000) % f,
            0 <= (frame * 1_000_000) % f < f,
            f > 0,
    ;
}

} // verus!
