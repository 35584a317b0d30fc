//! The clip player: the time display, reading the video size from the
//! probe, and the playback clock that the keys and the slider move.

use vstd::prelude::*;
use crate::text::{
    chars_of, dec_digits, first_match, push_char, push_decimal, split_once, split_once_exec, trim,
    trim_chars,
};

verus! {

broadcast use vstd::string::group_string_axioms;

proof fn lemma_dec_digits_len(n: nat)
    ensures
        n < 10 ==> dec_digits(n).len() == 1,
        n >= 10 ==> dec_digits(n).len() >= 2,
    decreases n,
{
    if n >= 10 {
        lemma_dec_digits_len(n / 10);
    }
}

/// `n` in decimal with at least two digits, as `{:02}` writes it.
pub open spec fn two_digits(n: nat) -> Seq<char> {
    crate::text::zero_pad2(dec_digits(n))
}

/// A play time of `secs` whole seconds as minutes and seconds, each with at
/// least two digits: `MM:SS`.
pub open spec fn time_label(secs: nat) -> Seq<char> {
    two_digits(secs / 60) + seq![':'] + two_digits(secs % 60)
}

fn push_two_digits(out: &mut String, n: u64)
    ensures
        final(out)@ == old(out)@ + two_digits(n as nat),
{
    proof {
        lemma_dec_digits_len(n as nat);
    }
    if n < 10 {
        push_char(out, '0');
    }
    push_decimal(out, n);
    assert(final(out)@ =~= old(out)@ + two_digits(n as nat)) by {
        if n < 10 {
            assert(Seq::new(1, |i: int| '0') =~= seq!['0']);
        }
    }
}

proof fn lemma_dec_digits_three(n: nat)
    ensures
        n >= 100 ==> dec_digits(n).len() >= 3,
        n < 100 ==> dec_digits(n).len() <= 2,
    decreases n,
{
    lemma_dec_digits_len(n);
    if n >= 10 {
        lemma_dec_digits_len(n / 10);
        lemma_dec_digits_three(n / 10);
    }
}

/// A time label is exactly five characters, two digits of minutes, a colon
/// and two digits of seconds, for every time under a hundred minutes, and
/// longer for longer times.
pub proof fn lemma_time_label_shape(secs: nat)
    ensures
        time_label(secs).len() == 5 <==> secs < 6000,
        time_label(secs)[time_label(secs).len() - 3] == ':',
{
    lemma_dec_digits_len(secs / 60);
    lemma_dec_digits_len(secs % 60);
    lemma_dec_digits_three(secs / 60);
    lemma_dec_digits_three(secs % 60);
    let m = two_digits(secs / 60);
    let r = two_digits(secs % 60);
    assert(r.len() == 2);
    assert(time_label(secs) == m + seq![':'] + r);
    assert((m + seq![':'] + r)[m.len() as int] == ':');
}

proof fn lemma_leading_zero(d: Seq<char>)
    ensures
        digits_value(seq!['0'] + d) == digits_value(d),
    decreases d.len(),
{
    let z = seq!['0'] + d;
    if d.len() > 0 {
        lemma_leading_zero(d.drop_last());
        assert(z.drop_last() =~= seq!['0'] + d.drop_last());
        assert(z.last() == d.last());
        assert(digits_value(z) == digits_value(z.drop_last()) * 10 + ((z.last() as nat) - 48) as nat);
        assert(digits_value(d) == digits_value(d.drop_last()) * 10 + ((d.last() as nat) - 48) as nat);
    } else {
        assert(z.drop_last() =~= Seq::<char>::empty());
        assert(z.last() == '0');
        assert(('0' as nat) == 48);
        assert(digits_value(z) == digits_value(z.drop_last()) * 10 + ((z.last() as nat) - 48) as nat);
    }
}

proof fn lemma_two_digits_value(n: nat)
    ensures
        all_digits(two_digits(n)),
        digits_value(two_digits(n)) == n,
        two_digits(n).len() >= 2,
        n < 100 ==> two_digits(n).len() == 2,
{
    lemma_dec_digits_are_digits(n);
    lemma_dec_digits_len(n);
    lemma_dec_digits_three(n);
    let d = dec_digits(n);
    if n < 10 {
        assert(two_digits(n) =~= seq!['0'] + d);
        lemma_leading_zero(d);
        assert forall|i: int| 0 <= i < two_digits(n).len() implies is_digit(
            #[trigger] two_digits(n)[i],
        ) by {
            if i > 0 {
                assert(two_digits(n)[i] == d[i - 1]);
            }
        }
    }
}

/// A time label reads back as the seconds it shows: digits of minutes, a
/// colon, and two digits of seconds below sixty, with minutes times sixty
/// plus seconds the whole seconds shown.
pub proof fn lemma_time_label_reads_back(secs: nat)
    ensures
        ({
            let l = time_label(secs);
            let k = l.len() - 3;
            &&& k >= 2
            &&& l[k] == ':'
            &&& all_digits(l.take(k))
            &&& all_digits(l.skip(k + 1))
            &&& l.skip(k + 1).len() == 2
            &&& digits_value(l.skip(k + 1)) < 60
            &&& digits_value(l.take(k)) * 60 + digits_value(l.skip(k + 1)) == secs
        }),
{
    let m = two_digits(secs / 60);
    let r = two_digits(secs % 60);
    lemma_two_digits_value(secs / 60);
    lemma_two_digits_value(secs % 60);
    let l = time_label(secs);
    assert(l == m + seq![':'] + r);
    let k = l.len() - 3;
    assert(k == m.len());
    assert(l.take(k) =~= m);
    assert(l.skip(k + 1) =~= r);
    assert(l[k] == ':');
}

/// Different whole seconds are shown as different labels.
pub proof fn lemma_time_label_injective(s1: nat, s2: nat)
    ensures
        s1 != s2 ==> time_label(s1) != time_label(s2),
{
    lemma_time_label_reads_back(s1);
    lemma_time_label_reads_back(s2);
}

/// Shows a play time given in whole seconds as `MM:SS`.
pub fn format_time(secs: u64) -> (s: String)
    ensures
        s@ == time_label(secs as nat),
{
    let mut s = String::new();
    push_two_digits(&mut s, secs / 60);
    push_char(&mut s, ':');
    push_two_digits(&mut s, secs % 60);
    assert(s@ =~= time_label(secs as nat));
    s
}

/// Whether `c` is an ASCII digit.
pub open spec fn is_digit(c: char) -> bool {
    '0' <= c <= '9'
}

/// The value of a string of decimal digits.
pub open spec fn digits_value(d: Seq<char>) -> nat
    decreases d.len(),
{
    if d.len() == 0 {
        0
    } else {
        digits_value(d.drop_last()) * 10 + ((d.last() as nat) - 48) as nat
    }
}

/// `s` without a leading `+`.
pub open spec fn sans_plus(s: Seq<char>) -> Seq<char> {
    if s.len() > 0 && s[0] == '+' {
        s.drop_first()
    } else {
        s
    }
}

/// Whether `d` is one or more ASCII digits.
pub open spec fn all_digits(d: Seq<char>) -> bool {
    d.len() > 0 && forall|i: int| 0 <= i < d.len() ==> is_digit(#[trigger] d[i])
}

/// The number that `str::parse` reads from `s` for an unsigned type of
/// unbounded size: an optional `+`, then one or more ASCII digits.
pub open spec fn unsigned_value(s: Seq<char>) -> Option<nat> {
    if all_digits(sans_plus(s)) {
        Some(digits_value(sans_plus(s)))
    } else {
        None
    }
}

/// The `usize` that `str::parse` reads from `s`; `None` where `s` is not a
/// number or the number does not fit.
pub open spec fn parsed_usize(s: Seq<char>) -> Option<usize> {
    match unsigned_value(s) {
        Some(v) => if v <= usize::MAX {
            Some(v as usize)
        } else {
            None
        },
        None => None,
    }
}

proof fn lemma_digits_value_prefix(d: Seq<char>, k: int)
    requires
        0 <= k <= d.len(),
        forall|i: int| 0 <= i < d.len() ==> is_digit(#[trigger] d[i]),
    ensures
        digits_value(d.take(k)) <= digits_value(d),
    decreases d.len() - k,
{
    if k < d.len() {
        let e = d.take(k + 1);
        assert(e.drop_last() =~= d.take(k));
        lemma_digits_value_prefix(d, k + 1);
    } else {
        assert(d.take(k) =~= d);
    }
}

/// Reads a `usize` as `str::parse` does.
pub fn parse_usize(s: &Vec<char>) -> (r: Option<usize>)
    ensures
        r == parsed_usize(s@),
{
    let start: usize = if s.len() > 0 && s[0] == '+' {
        1
    } else {
        0
    };
    let ghost d = sans_plus(s@);
    assert(d =~= s@.skip(start as int));
    if start >= s.len() {
        return None;
    }
    let mut i = start;
    while i < s.len()
        invariant
            start <= i <= s.len(),
            d == s@.skip(start as int),
            d == sans_plus(s@),
            forall|j: int| start <= j < i ==> is_digit(s@[j]),
        decreases s.len() - i,
    {
        if !('0' <= s[i] && s[i] <= '9') {
            assert(0 <= i - start < d.len());
            assert(d[i - start] == s@[i as int]);
            assert(!is_digit(d[i - start]));
            assert(!all_digits(d));
            return None;
        }
        i = i + 1;
    }
    assert(forall|j: int| 0 <= j < d.len() ==> is_digit(#[trigger] d[j])) by {
        assert forall|j: int| 0 <= j < d.len() implies is_digit(#[trigger] d[j]) by {
            assert(d[j] == s@[j + start]);
        }
    }
    let mut v: usize = 0;
    let mut k = start;
    while k < s.len()
        invariant
            start <= k <= s.len(),
            d == s@.skip(start as int),
            d == sans_plus(s@),
            forall|j: int| 0 <= j < d.len() ==> is_digit(#[trigger] d[j]),
            v as nat == digits_value(d.take(k - start)),
        decreases s.len() - k,
    {
        let c = s[k];
        assert(d.take(k - start + 1).drop_last() =~= d.take(k - start));
        assert(d.take(k - start + 1).last() == c);
        let digit = (c as u32 - 48) as usize;
        match v.checked_mul(10) {
            Some(t) => match t.checked_add(digit) {
                Some(u) => {
                    v = u;
                },
                None => {
                    proof {
                        lemma_digits_value_prefix(d, k - start + 1);
                    }
                    return None;
                },
            },
            None => {
                proof {
                    lemma_digits_value_prefix(d, k - start + 1);
                }
                return None;
            },
        }
        k = k + 1;
    }
    assert(d.take(d.len() as int) =~= d);
    Some(v)
}

/// The width and height that the video probe reports as `WIDTHxHEIGHT`:
/// the trimmed output holds exactly one `x`, and a number on either side.
pub open spec fn probe_dimensions(out: Seq<char>) -> Option<(usize, usize)> {
    match split_once(trim(out), 'x') {
        Some((a, b)) => if first_match(b, seq!['x']) is None {
            match (parsed_usize(a), parsed_usize(b)) {
                (Some(w), Some(h)) => Some((w, h)),
                _ => None,
            }
        } else {
            None
        },
        None => None,
    }
}

proof fn lemma_dec_digits_are_digits(n: nat)
    ensures
        forall|i: int| 0 <= i < dec_digits(n).len() ==> is_digit(#[trigger] dec_digits(n)[i]),
        digits_value(dec_digits(n)) == n,
        dec_digits(n).len() > 0,
    decreases n,
{
    let c = crate::text::digit_char(n % 10);
    assert((c as nat) == 48 + n % 10);
    let d = dec_digits(n);
    assert(d.last() == c);
    if n < 10 {
        assert(d.drop_last() =~= Seq::<char>::empty());
        assert(digits_value(d) == digits_value(d.drop_last()) * 10 + ((c as nat) - 48) as nat);
    }
    if n >= 10 {
        lemma_dec_digits_are_digits(n / 10);
        assert(d.drop_last() =~= dec_digits(n / 10));
        assert(digits_value(d) == digits_value(d.drop_last()) * 10 + ((c as nat) - 48) as nat);
        assert forall|i: int| 0 <= i < d.len() implies is_digit(#[trigger] d[i]) by {
            if i < d.len() - 1 {
                assert(d[i] == dec_digits(n / 10)[i]);
            }
        }
    }
}

/// A number written in decimal is read back as that number.
pub proof fn lemma_parse_decimal(n: nat)
    ensures
        unsigned_value(dec_digits(n)) == Some(n),
        n <= usize::MAX ==> parsed_usize(dec_digits(n)) == Some(n as usize),
{
    lemma_dec_digits_are_digits(n);
    let d = dec_digits(n);
    assert(is_digit(d[0]));
    assert(sans_plus(d) == d);
}

proof fn lemma_digits_trim(d: Seq<char>)
    requires
        d.len() > 0,
        forall|i: int| 0 <= i < d.len() ==> is_digit(#[trigger] d[i]),
    ensures
        trim(d) == d,
{
    assert(!crate::text::is_ws(d[0]));
    assert(crate::text::trim_start(d) == d);
    assert(!crate::text::is_ws(d.last()));
}

/// A size written as `WIDTHxHEIGHT` in decimal is read back as that size.
pub proof fn lemma_dimensions_round_trip(w: usize, h: usize)
    ensures
        probe_dimensions(dec_digits(w as nat) + seq!['x'] + dec_digits(h as nat)) == Some((w, h)),
{
    let a = dec_digits(w as nat);
    let b = dec_digits(h as nat);
    let s = a + seq!['x'] + b;
    lemma_dec_digits_are_digits(w as nat);
    lemma_dec_digits_are_digits(h as nat);
    lemma_parse_decimal(w as nat);
    lemma_parse_decimal(h as nat);
    assert(!crate::text::is_ws(s[0])) by {
        assert(s[0] == a[0]);
    }
    assert(!crate::text::is_ws(s.last())) by {
        assert(s.last() == b.last());
    }
    assert(crate::text::trim_start(s) == s);
    assert(trim(s) == s);
    let x = seq!['x'];
    assert(crate::text::is_first_match(s, x, a.len() as int)) by {
        assert(s.subrange(a.len() as int, (a.len() + 1) as int) =~= x);
        assert forall|j: int| 0 <= j < a.len() implies !crate::text::matches_at(s, x, j) by {
            assert(s.subrange(j, j + 1)[0] == a[j]);
        }
    }
    crate::text::lemma_first_match(s, x, a.len() as int);
    assert(s.take(a.len() as int) =~= a);
    assert(s.skip((a.len() + 1) as int) =~= b);
    assert(!crate::text::contains(b, x)) by {
        if crate::text::contains(b, x) {
            let j = choose|j: int| crate::text::matches_at(b, x, j);
            assert(b.subrange(j, j + 1)[0] == b[j]);
        }
    }
}

/// Reads the video size from the probe's output.
pub fn parse_dimensions(out: &str) -> (r: Option<(usize, usize)>)
    ensures
        r == probe_dimensions(out@),
{
    let text = chars_of(out);
    let t = trim_chars(&text);
    match split_once_exec(&t, 'x') {
        Some((a, b)) => {
            let mut x: Vec<char> = Vec::new();
            x.push('x');
            assert(x@ =~= seq!['x']);
            if crate::text::find(&b, &x).is_some() {
                return None;
            }
            match (parse_usize(&a), parse_usize(&b)) {
                (Some(w), Some(h)) => Some((w, h)),
                _ => None,
            }
        },
        None => None,
    }
}

/// The number of bytes in one RGB frame of the video; `None` where it does
/// not fit in memory sizes.
pub fn frame_bytes(width: usize, height: usize) -> (r: Option<usize>)
    ensures
        match r {
            Some(n) => n == width * height * 3,
            None => width * height * 3 > usize::MAX,
        },
{
    match width.checked_mul(height) {
        Some(p) => match p.checked_mul(3) {
            Some(n) => Some(n),
            None => None,
        },
        None => {
            assert(width * height * 3 >= width * height) by (nonlinear_arith);
            None
        },
    }
}

/// One second in nanoseconds.
pub const NANOS_PER_SEC: u128 = 1_000_000_000;

/// The longest play time, in nanoseconds: that of `Duration::MAX`.
pub const MAX_TIME_NANOS: u128 = 18_446_744_073_709_551_615_999_999_999;

/// How far the arrow keys jump, in nanoseconds.
pub const SEEK_STEP_NANOS: u128 = 5_000_000_000;

/// The playback clock of an open clip, in nanoseconds.
pub struct Playback {
    /// How far into the clip the player is.
    pub current: u128,
    /// The length of the clip.
    pub duration: u128,
    pub is_playing: bool,
    pub muted: bool,
}

impl Playback {
    /// Whether both times are play times.
    pub open spec fn valid(&self) -> bool {
        self.current <= MAX_TIME_NANOS && self.duration <= MAX_TIME_NANOS
    }

    /// The clock of a clip that was just opened: at its start, playing,
    /// not muted.
    pub fn new(duration: u128) -> (p: Playback)
        requires
            duration <= MAX_TIME_NANOS,
        ensures
            p.valid(),
            p.current == 0,
            p.duration == duration,
            p.is_playing,
            !p.muted,
    {
        Playback { current: 0, duration, is_playing: true, muted: false }
    }

    /// Pauses a playing clip and plays a paused one.
    pub fn toggle_play(&mut self)
        ensures
            final(self).is_playing == !old(self).is_playing,
            final(self).current == old(self).current,
            final(self).duration == old(self).duration,
            final(self).muted == old(self).muted,
    {
        self.is_playing = !self.is_playing;
    }

    /// Mutes and unmutes.
    pub fn toggle_mute(&mut self)
        ensures
            final(self).muted == !old(self).muted,
            final(self).current == old(self).current,
            final(self).duration == old(self).duration,
            final(self).is_playing == old(self).is_playing,
    {
        self.muted = !self.muted;
    }

    /// Where the left arrow key jumps: five seconds back, not before the
    /// start.
    pub fn back_target(&self) -> (t: u128)
        ensures
            t == if self.current >= SEEK_STEP_NANOS {
                (self.current - SEEK_STEP_NANOS) as u128
            } else {
                0
            },
    {
        self.current.saturating_sub(SEEK_STEP_NANOS)
    }

    /// Where the right arrow key jumps: five seconds on, not past the end.
    pub fn forward_target(&self) -> (t: u128)
        requires
            self.current + SEEK_STEP_NANOS <= MAX_TIME_NANOS,
        ensures
            t == if self.current + SEEK_STEP_NANOS <= self.duration {
                (self.current + SEEK_STEP_NANOS) as u128
            } else {
                self.duration
            },
    {
        let t = self.current + SEEK_STEP_NANOS;
        if t <= self.duration {
            t
        } else {
            self.duration
        }
    }

    /// Lets `elapsed` nanoseconds pass: a playing clip moves on, up to its
    /// end; a paused one stays.
    pub fn advance(&mut self, elapsed: u128)
        requires
            old(self).current + elapsed <= MAX_TIME_NANOS,
        ensures
            final(self).current == if old(self).is_playing {
                if old(self).current + elapsed <= old(self).duration {
                    (old(self).current + elapsed) as u128
                } else {
                    old(self).duration
                }
            } else {
                old(self).current
            },
            final(self).duration == old(self).duration,
            final(self).is_playing == old(self).is_playing,
            final(self).muted == old(self).muted,
            old(self).current <= old(self).duration ==> final(self).current <= final(self).duration,
    {
        if self.is_playing {
            let t = self.current + elapsed;
            self.current = if t <= self.duration {
                t
            } else {
                self.duration
            };
        }
    }

    /// Jumps to `time`.
    pub fn seek_to(&mut self, time: u128)
        ensures
            final(self).current == time,
            final(self).duration == old(self).duration,
            final(self).is_playing == old(self).is_playing,
            final(self).muted == old(self).muted,
    {
        self.current = time;
    }

    /// The whole seconds played, as `Duration::as_secs` counts them.
    pub fn current_secs(&self) -> (s: u64)
        requires
            self.valid(),
        ensures
            s == self.current / NANOS_PER_SEC,
    {
        (self.current / NANOS_PER_SEC) as u64
    }

    /// The whole seconds of the clip.
    pub fn duration_secs(&self) -> (s: u64)
        requires
            self.valid(),
        ensures
            s == self.duration / NANOS_PER_SEC,
    {
        (self.duration / NANOS_PER_SEC) as u64
    }
}


/// The `-ss` arguments that make `ffmpeg` start at `start`, none where the
/// clip is played from its start.
pub open spec fn seek_prefix(start: Option<Seq<char>>) -> Seq<Seq<char>> {
    match start {
        Some(s) => seq!["-ss"@, s],
        None => seq![],
    }
}

/// The `ffmpeg` arguments that decode the sound of `video` from `start` as
/// raw 16-bit little-endian stereo at 44100 Hz on standard output.
pub open spec fn audio_decode_args_of(start: Option<Seq<char>>, video: Seq<char>) -> Seq<
    Seq<char>,
> {
    seek_prefix(start) + seq![
        "-i"@,
        video,
        "-f"@,
        "s16le"@,
        "-acodec"@,
        "pcm_s16le"@,
        "-ar"@,
        "44100"@,
        "-ac"@,
        "2"@,
        "-"@,
    ]
}

/// The `ffmpeg` arguments that decode the picture of `video` from `start`,
/// at its own pace, as raw RGB frames on standard output.
pub open spec fn video_decode_args_of(start: Option<Seq<char>>, video: Seq<char>) -> Seq<
    Seq<char>,
> {
    seek_prefix(start) + seq![
        "-re"@,
        "-i"@,
        video,
        "-f"@,
        "image2pipe"@,
        "-pix_fmt"@,
        "rgb24"@,
        "-vcodec"@,
        "rawvideo"@,
        "-"@,
    ]
}

/// The `ffprobe` arguments that print the size of the first video stream
/// of `video` as `WIDTHxHEIGHT`.
pub open spec fn probe_size_args_of(video: Seq<char>) -> Seq<Seq<char>> {
    seq![
        "-v"@,
        "error"@,
        "-select_streams"@,
        "v:0"@,
        "-show_entries"@,
        "stream=width,height"@,
        "-of"@,
        "csv=s=x:p=0"@,
        video,
    ]
}

/// The `ffprobe` arguments that print the length of `video` in seconds.
pub open spec fn probe_length_args_of(video: Seq<char>) -> Seq<Seq<char>> {
    seq![
        "-v"@,
        "error"@,
        "-show_entries"@,
        "format=duration"@,
        "-of"@,
        "default=noprint_wrappers=1:nokey=1"@,
        video,
    ]
}

fn push_seek(args: &mut Vec<String>, start: &Option<String>)
    requires
        old(args)@.len() == 0,
    ensures
        crate::text::strings_are(final(args)@, seek_prefix(opt_view(*start))),
{
    match start {
        Some(s) => {
            args.push(crate::text::owned("-ss"));
            args.push(s.clone());
        },
        None => {},
    }
}

/// The view of an optional string.
pub open spec fn opt_view(o: Option<String>) -> Option<Seq<char>> {
    match o {
        Some(s) => Some(s@),
        None => None,
    }
}

/// The `ffmpeg` arguments that decode the sound of a clip; `start` is the
/// formatted seek time, `None` from the clip's start.
pub fn audio_decode_args(start: &Option<String>, video: &str) -> (r: Vec<String>)
    ensures
        crate::text::strings_are(r@, audio_decode_args_of(opt_view(*start), video@)),
{
    let mut r: Vec<String> = Vec::new();
    push_seek(&mut r, start);
    r.push(crate::text::owned("-i"));
    r.push(crate::text::owned(video));
    r.push(crate::text::owned("-f"));
    r.push(crate::text::owned("s16le"));
    r.push(crate::text::owned("-acodec"));
    r.push(crate::text::owned("pcm_s16le"));
    r.push(crate::text::owned("-ar"));
    r.push(crate::text::owned("44100"));
    r.push(crate::text::owned("-ac"));
    r.push(crate::text::owned("2"));
    r.push(crate::text::owned("-"));
    r
}

/// The `ffmpeg` arguments that decode the picture of a clip; `start` is the
/// formatted seek time, `None` from the clip's start.
pub fn video_decode_args(start: &Option<String>, video: &str) -> (r: Vec<String>)
    ensures
        crate::text::strings_are(r@, video_decode_args_of(opt_view(*start), video@)),
{
    let mut r: Vec<String> = Vec::new();
    push_seek(&mut r, start);
    r.push(crate::text::owned("-re"));
    r.push(crate::text::owned("-i"));
    r.push(crate::text::owned(video));
    r.push(crate::text::owned("-f"));
    r.push(crate::text::owned("image2pipe"));
    r.push(crate::text::owned("-pix_fmt"));
    r.push(crate::text::owned("rgb24"));
    r.push(crate::text::owned("-vcodec"));
    r.push(crate::text::owned("rawvideo"));
    r.push(crate::text::owned("-"));
    r
}

/// The `ffprobe` arguments that print the size of a clip's picture.
pub fn probe_size_args(video: &str) -> (r: Vec<String>)
    ensures
        crate::text::strings_are(r@, probe_size_args_of(video@)),
{
    let mut r: Vec<String> = Vec::new();
    r.push(crate::text::owned("-v"));
    r.push(crate::text::owned("error"));
    r.push(crate::text::owned("-select_streams"));
    r.push(crate::text::owned("v:0"));
    r.push(crate::text::owned("-show_entries"));
    r.push(crate::text::owned("stream=width,height"));
    r.push(crate::text::owned("-of"));
    r.push(crate::text::owned("csv=s=x:p=0"));
    r.push(crate::text::owned(video));
    r
}

/// The `ffprobe` arguments that print the length of a clip.
pub fn probe_length_args(video: &str) -> (r: Vec<String>)
    ensures
        crate::text::strings_are(r@, probe_length_args_of(video@)),
{
    let mut r: Vec<String> = Vec::new();
    r.push(crate::text::owned("-v"));
    r.push(crate::text::owned("error"));
    r.push(crate::text::owned("-show_entries"));
    r.push(crate::text::owned("format=duration"));
    r.push(crate::text::owned("-of"));
    r.push(crate::text::owned("default=noprint_wrappers=1:nokey=1"));
    r.push(crate::text::owned(video));
    r
}

} // verus!
