//! What a lighting request means, and everything it must satisfy before a byte
//! can reach the RGB controller.
//!
//! Nothing here knows the wire format. A profile stores a color, a brightness
//! and a named effect, never a packet.

use vstd::prelude::*;

use crate::capability::CapabilityId;
use crate::measure::{blend, Measured};
use crate::text;

verus! {

/// Colors are written as six hexadecimal digits, the form the screen accepts.
pub const HEX_COLOR_DIGITS: usize = 6;

/// Highest brightness percentage the product commands.
pub const MAX_BRIGHTNESS: u8 = 100;

/// Brightness the write probe uses on live hardware: enough to see on the
/// strip, far from anything that stresses the controller's current budget.
pub const PROBE_BRIGHTNESS: u8 = 10;

/// Shortest interval the daemon leaves between two commands on one channel.
pub const MIN_COMMAND_INTERVAL_MS: u64 = 50;

/// A 24-bit color, as the operator typed it.
#[derive(Debug, Clone, Copy, PartialEq, Eq, Structural)]
pub struct Rgb {
    pub r: u8,
    pub g: u8,
    pub b: u8,
}

/// A text without the `#` signs it starts with.
pub open spec fn without_hashes(value: Seq<char>) -> Seq<char>
    decreases value.len(),
{
    if value.len() > 0 && value[0] == '#' {
        without_hashes(value.drop_first())
    } else {
        value
    }
}

/// The part of an entry that has to be six hexadecimal digits: what is left
/// once white space around it and `#` signs before it are gone.
pub open spec fn color_digits(value: Seq<char>) -> Seq<char> {
    without_hashes(text::trimmed(value))
}

/// Whether a character is one of 0-9, a-f and A-F.
pub open spec fn is_hex_digit(letter: char) -> bool {
    ||| 48 <= letter as int <= 57
    ||| 65 <= letter as int <= 70
    ||| 97 <= letter as int <= 102
}

/// The number a hexadecimal digit of either case stands for.
pub open spec fn hex_digit_value(letter: char) -> int {
    if letter as int <= 57 {
        letter as int - 48
    } else if letter as int <= 70 {
        letter as int - 55
    } else {
        letter as int - 87
    }
}

/// Whether a text is made of hexadecimal digits only.
pub open spec fn all_hex_digits(digits: Seq<char>) -> bool {
    forall|i: int| 0 <= i < digits.len() ==> is_hex_digit(#[trigger] digits[i])
}

/// The color six hexadecimal digits name.
pub open spec fn color_of(digits: Seq<char>) -> Rgb {
    Rgb {
        r: (16 * hex_digit_value(digits[0]) + hex_digit_value(digits[1])) as u8,
        g: (16 * hex_digit_value(digits[2]) + hex_digit_value(digits[3])) as u8,
        b: (16 * hex_digit_value(digits[4]) + hex_digit_value(digits[5])) as u8,
    }
}

/// The character of one uppercase hexadecimal digit.
pub open spec fn upper_hex_digit(value: int) -> char {
    if value < 10 {
        (48 + value) as char
    } else {
        (55 + value) as char
    }
}

/// One byte as two uppercase hexadecimal digits.
pub open spec fn hex_pair(value: u8) -> Seq<char> {
    seq![upper_hex_digit(value as int / 16), upper_hex_digit(value as int % 16)]
}

/// Append one byte as two uppercase hexadecimal digits.
fn push_hex_pair(out: &mut String, value: u8)
    ensures
        final(out)@ == old(out)@ + hex_pair(value),
{
    let ghost before = out@;
    let high: u8 = value / 16;
    let low: u8 = value % 16;
    out.push(
        if high < 10 {
            (48u8 + high) as char
        } else {
            (55u8 + high) as char
        },
    );
    out.push(
        if low < 10 {
            (48u8 + low) as char
        } else {
            (55u8 + low) as char
        },
    );
    assert(out@ =~= before + hex_pair(value));
}

/// The number of a hexadecimal digit of either case, if it is one.
fn digit_value(letter: char) -> (value: Option<u8>)
    ensures
        value is Some <==> is_hex_digit(letter),
        value matches Some(value) ==> value == hex_digit_value(letter) && value < 16,
{
    let code: u32 = letter as u32;
    if 48 <= code && code <= 57 {
        Some((code - 48) as u8)
    } else if 65 <= code && code <= 70 {
        Some((code - 55) as u8)
    } else if 97 <= code && code <= 102 {
        Some((code - 87) as u8)
    } else {
        None
    }
}

impl Rgb {
    pub fn black() -> (color: Self)
        ensures
            color == (Self { r: 0, g: 0, b: 0 }),
    {
        Self { r: 0, g: 0, b: 0 }
    }

    pub fn new(r: u8, g: u8, b: u8) -> (color: Self)
        ensures
            color == (Self { r, g, b }),
    {
        Self { r, g, b }
    }

    /// Parse six hexadecimal digits, with or without a leading `#`.
    ///
    /// The error names the exact problem, because the screen shows it on the
    /// field the operator is editing.
    pub fn parse_hex(value: &str) -> (result: Result<Self, LightingError>)
        ensures
            result is Ok <==> text::byte_len(color_digits(value@)) == HEX_COLOR_DIGITS
                && all_hex_digits(color_digits(value@)),
            result matches Ok(color) ==> color == color_of(color_digits(value@)),
            text::byte_len(color_digits(value@)) != HEX_COLOR_DIGITS ==> result == Err::<Self, LightingError>(
                LightingError::ColorDigits {
                    expected: HEX_COLOR_DIGITS,
                    actual: color_digits(value@).len() as usize,
                },
            ) && color_digits(value@).len() <= usize::MAX,
            text::byte_len(color_digits(value@)) == HEX_COLOR_DIGITS && !all_hex_digits(
                color_digits(value@),
            ) ==> (result matches Err(LightingError::ColorAlphabet { value: got }) && got@
                == color_digits(value@)),
    {
        let inner: String = text::trim(value);
        let letters: Vec<char> = text::chars_of(inner.as_str());
        let mut from: usize = 0;
        assert(letters@.subrange(0, letters@.len() as int) =~= letters@);
        while from < letters.len() && letters[from] == '#'
            invariant
                from <= letters@.len(),
                without_hashes(letters@.subrange(from as int, letters@.len() as int))
                    == without_hashes(letters@),
            decreases letters@.len() - from,
        {
            assert(letters@.subrange(from as int, letters@.len() as int).drop_first()
                =~= letters@.subrange(from + 1, letters@.len() as int));
            from = from + 1;
        }
        let digits: String = text::text_of(&letters, from, letters.len());
        assert(digits@ == color_digits(value@));
        if text::byte_count(digits.as_str()) != HEX_COLOR_DIGITS {
            return Err(LightingError::ColorDigits {
                expected: HEX_COLOR_DIGITS,
                actual: letters.len() - from,
            });
        }
        let mut values: Vec<u8> = Vec::new();
        let mut index: usize = from;
        while index < letters.len()
            invariant
                from <= index <= letters@.len(),
                digits@ == letters@.subrange(from as int, letters@.len() as int),
                digits@ == color_digits(value@),
                text::byte_len(digits@) == HEX_COLOR_DIGITS,
                values@.len() == index - from,
                forall|i: int|
                    0 <= i < values@.len() ==> is_hex_digit(#[trigger] digits@[i]) && values@[i]
                        == hex_digit_value(digits@[i]) && values@[i] < 16,
            decreases letters@.len() - index,
        {
            let ghost known = values@;
            assert(letters@[index as int] == digits@[index - from]);
            match digit_value(letters[index]) {
                Some(number) => values.push(number),
                None => {
                    return Err(LightingError::ColorAlphabet { value: digits });
                },
            }
            index = index + 1;
            assert forall|i: int| 0 <= i < values@.len() implies is_hex_digit(
                #[trigger] digits@[i],
            ) && values@[i] == hex_digit_value(digits@[i]) && values@[i] < 16 by {
                if i < known.len() {
                    assert(values@[i] == known[i]);
                }
            }
        }
        proof {
            assert(vstd::utf8::is_ascii_chars(digits@));
            vstd::utf8::is_ascii_chars_encode_utf8(digits@);
            assert(values@.len() == 6);
            assert(is_hex_digit(digits@[0]) && is_hex_digit(digits@[1]) && is_hex_digit(digits@[2]));
            assert(is_hex_digit(digits@[3]) && is_hex_digit(digits@[4]) && is_hex_digit(digits@[5]));
        }
        Ok(
            Self {
                r: 16 * values[0] + values[1],
                g: 16 * values[2] + values[3],
                b: 16 * values[4] + values[5],
            },
        )
    }

    /// The six-digit form, without a leading `#`.
    pub open spec fn hex_text(self) -> Seq<char> {
        hex_pair(self.r) + hex_pair(self.g) + hex_pair(self.b)
    }

    /// The six-digit form, without a leading `#`.
    pub fn to_hex(self) -> (digits: String)
        ensures
            digits@ == self.hex_text(),
    {
        let mut digits: String = String::new();
        push_hex_pair(&mut digits, self.r);
        push_hex_pair(&mut digits, self.g);
        push_hex_pair(&mut digits, self.b);
        assert(digits@ =~= self.hex_text());
        digits
    }

    /// This color at a brightness, each channel rounded down.
    pub open spec fn at_brightness(self, percent: u8) -> Self {
        Self {
            r: (self.r as int * percent as int / 100) as u8,
            g: (self.g as int * percent as int / 100) as u8,
            b: (self.b as int * percent as int / 100) as u8,
        }
    }

    /// This color at `brightness` percent.
    ///
    /// The controller has no brightness command, so brightness is applied to
    /// the triplet before it is encoded.
    pub fn scaled(self, brightness: Brightness) -> (color: Self)
        ensures
            color == self.at_brightness(brightness@),
            100 * color.r <= self.r * brightness@ < 100 * color.r + 100,
            100 * color.g <= self.g * brightness@ < 100 * color.g + 100,
            100 * color.b <= self.b * brightness@ < 100 * color.b + 100,
    {
        let percent: u8 = brightness.percent();
        Self {
            r: scale(self.r, percent),
            g: scale(self.g, percent),
            b: scale(self.b, percent),
        }
    }

    /// This color moved an `amount` of the way toward `toward`.
    ///
    /// `amount` is expected between nothing and one. Beyond that the line is
    /// followed past its end and each channel stops at the end of its range.
    pub fn mixed(self, toward: Self, amount: Measured) -> (color: Self)
        ensures
            color.r == crate::measure::blended(self.r, toward.r, amount),
            color.g == crate::measure::blended(self.g, toward.g, amount),
            color.b == crate::measure::blended(self.b, toward.b, amount),
    {
        Self {
            r: blend(self.r, toward.r, amount),
            g: blend(self.g, toward.g, amount),
            b: blend(self.b, toward.b, amount),
        }
    }
}

fn scale(channel: u8, percent: u8) -> (scaled: u8)
    requires
        percent <= MAX_BRIGHTNESS,
    ensures
        scaled == channel as int * percent as int / 100,
{
    proof {
        lemma_scale(channel, percent);
    }
    ((channel as u16 * percent as u16) / 100) as u8
}

proof fn lemma_scale(channel: u8, percent: u8)
    requires
        percent <= MAX_BRIGHTNESS,
    ensures
        0 <= channel as int * percent as int <= 25500,
        0 <= channel as int * percent as int / 100 <= channel,
{
    let product = channel as int * percent as int;
    assert(0 <= product <= channel * 100) by (nonlinear_arith)
        requires
            0 <= channel <= 255,
            0 <= percent <= 100,
            product == channel as int * percent as int,
    ;
}

/// A brightness percentage that cannot hold an out-of-range value.
#[derive(Debug, Clone, Copy, PartialEq, Eq, PartialOrd, Ord)]
pub struct Brightness {
    percent: u8,
}

impl View for Brightness {
    type V = u8;

    closed spec fn view(&self) -> u8 {
        self.percent
    }
}

impl Brightness {
    #[verifier::type_invariant]
    spec fn in_range(self) -> bool {
        self.percent <= MAX_BRIGHTNESS
    }

    pub fn full() -> (brightness: Self)
        ensures
            brightness@ == MAX_BRIGHTNESS,
    {
        Self { percent: MAX_BRIGHTNESS }
    }

    pub fn off() -> (brightness: Self)
        ensures
            brightness@ == 0,
    {
        Self { percent: 0 }
    }

    pub fn new(percent: u8) -> (result: Result<Self, LightingError>)
        ensures
            result is Ok <==> percent <= MAX_BRIGHTNESS,
            result matches Ok(brightness) ==> brightness@ == percent,
            result matches Err(error) ==> error == (LightingError::BrightnessOutOfRange {
                value: percent,
                max: MAX_BRIGHTNESS,
            }),
    {
        if percent > MAX_BRIGHTNESS {
            return Err(LightingError::BrightnessOutOfRange { value: percent, max: MAX_BRIGHTNESS });
        }
        Ok(Self { percent })
    }

    /// A brightness that is known to be a percentage where it is written down.
    pub fn from_percent(percent: u8) -> (brightness: Self)
        requires
            percent <= MAX_BRIGHTNESS,
        ensures
            brightness@ == percent,
    {
        Self { percent }
    }

    pub fn percent(self) -> (percent: u8)
        ensures
            percent == self@,
            percent <= MAX_BRIGHTNESS,
    {
        proof {
            use_type_invariant(&self);
        }
        self.percent
    }

    /// Whether two brightnesses are the same.
    pub fn same(self, other: Self) -> (same: bool)
        ensures
            same == (self@ == other@),
    {
        self.percent == other.percent
    }
}

/// The animated effects this product exposes: those whose exact command has run
/// on the owned controller.
#[derive(Debug, Clone, Copy, PartialEq, Eq, PartialOrd, Ord, Hash, Structural)]
pub enum LightingEffect {
    Breathing,
    SpectrumWave,
}

impl LightingEffect {
    /// Every variant, in the order they are declared and offered.
    pub fn all() -> (all: [Self; 2])
        ensures
            all@ == seq![Self::Breathing, Self::SpectrumWave],
    {
        let all: [Self; 2] = [Self::Breathing, Self::SpectrumWave];
        assert(all@ =~= seq![Self::Breathing, Self::SpectrumWave]);
        all
    }

    /// The stable identifier this variant travels and is stored under.
    pub open spec fn key_text(self) -> Seq<char> {
        match self {
            Self::Breathing => "breathing"@,
            Self::SpectrumWave => "spectrum_wave"@,
        }
    }

    /// The stable identifier this variant travels and is stored under.
    pub fn key(self) -> (key: &'static str)
        ensures
            key@ == self.key_text(),
            self is Breathing ==> key@ == "breathing"@,
            self is SpectrumWave ==> key@ == "spectrum_wave"@,
    {
        match self {
            Self::Breathing => "breathing",
            Self::SpectrumWave => "spectrum_wave",
        }
    }

    /// The words a control puts on screen for this variant.
    pub open spec fn label_text(self) -> Seq<char> {
        match self {
            Self::Breathing => "Breathing"@,
            Self::SpectrumWave => "Spectrum wave"@,
        }
    }

    /// The words a control puts on screen for this variant.
    pub fn label(self) -> (label: &'static str)
        ensures
            label@ == self.label_text(),
            self is Breathing ==> label@ == "Breathing"@,
            self is SpectrumWave ==> label@ == "Spectrum wave"@,
    {
        match self {
            Self::Breathing => "Breathing",
            Self::SpectrumWave => "Spectrum wave",
        }
    }

    /// No two variants claim one key.
    pub proof fn keys_are_distinct(a: Self, b: Self)
        requires
            a.key_text() == b.key_text(),
        ensures
            a == b,
    {
        reveal_strlit("breathing");
        reveal_strlit("spectrum_wave");
        assert("breathing"@.len() == 9);
        assert("spectrum_wave"@.len() == 13);
    }

    /// The variant a stable key names, or nothing at all.
    pub fn from_key(key: &str) -> (found: Option<Self>)
        ensures
            forall|variant: Self|
                (found == Some(variant)) <==> key@ == #[trigger] variant.key_text(),
    {
        proof {
            assert forall|a: Self, b: Self| #[trigger] a.key_text() == #[trigger] b.key_text() implies a
                == b by {
                Self::keys_are_distinct(a, b);
            }
        }
        if crate::text::same(key, "breathing") {
            assert(Self::Breathing.key_text() == key@);
            Some(Self::Breathing)
        } else if crate::text::same(key, "spectrum_wave") {
            assert(Self::SpectrumWave.key_text() == key@);
            Some(Self::SpectrumWave)
        } else {
            None
        }
    }
}

impl LightingEffect {
    pub open spec fn min_colors(self) -> nat {
        match self {
            Self::Breathing => 1,
            Self::SpectrumWave => 0,
        }
    }

    pub open spec fn max_colors(self) -> nat {
        match self {
            Self::Breathing => 8,
            Self::SpectrumWave => 0,
        }
    }

    /// How many colors the effect accepts, inclusive.
    ///
    /// Spectrum wave cycles the whole spectrum and takes none.
    pub fn color_range(self) -> (range: (usize, usize))
        ensures
            range.0 == self.min_colors(),
            range.1 == self.max_colors(),
            self is Breathing ==> range.0 == 1 && range.1 == 8,
            self is SpectrumWave ==> range.0 == 0 && range.1 == 0,
    {
        match self {
            Self::Breathing => (1, 8),
            Self::SpectrumWave => (0, 0),
        }
    }

    /// Whether the firmware honors a direction for this effect.
    pub fn accepts_direction(self) -> (accepts: bool)
        ensures
            accepts == (self is SpectrumWave),
    {
        match self {
            Self::Breathing => false,
            Self::SpectrumWave => true,
        }
    }
}

/// The five animation speeds the controller accepts.
#[derive(Debug, Clone, Copy, PartialEq, Eq, PartialOrd, Ord, Hash, Structural)]
pub enum EffectSpeed {
    Slowest,
    Slower,
    Normal,
    Faster,
    Fastest,
}

impl EffectSpeed {
    /// Every variant, in the order they are declared and offered.
    pub fn all() -> (all: [Self; 5])
        ensures
            all@ == seq![Self::Slowest, Self::Slower, Self::Normal, Self::Faster, Self::Fastest],
    {
        let all: [Self; 5] = [Self::Slowest, Self::Slower, Self::Normal, Self::Faster, Self::Fastest];
        assert(all@ =~= seq![Self::Slowest, Self::Slower, Self::Normal, Self::Faster, Self::Fastest]);
        all
    }

    /// The stable identifier this variant travels and is stored under.
    pub open spec fn key_text(self) -> Seq<char> {
        match self {
            Self::Slowest => "slowest"@,
            Self::Slower => "slower"@,
            Self::Normal => "normal"@,
            Self::Faster => "faster"@,
            Self::Fastest => "fastest"@,
        }
    }

    /// The stable identifier this variant travels and is stored under.
    pub fn key(self) -> (key: &'static str)
        ensures
            key@ == self.key_text(),
            self is Slowest ==> key@ == "slowest"@,
            self is Slower ==> key@ == "slower"@,
            self is Normal ==> key@ == "normal"@,
            self is Faster ==> key@ == "faster"@,
            self is Fastest ==> key@ == "fastest"@,
    {
        match self {
            Self::Slowest => "slowest",
            Self::Slower => "slower",
            Self::Normal => "normal",
            Self::Faster => "faster",
            Self::Fastest => "fastest",
        }
    }

    /// The words a control puts on screen for this variant.
    pub open spec fn label_text(self) -> Seq<char> {
        match self {
            Self::Slowest => "Slowest"@,
            Self::Slower => "Slower"@,
            Self::Normal => "Normal"@,
            Self::Faster => "Faster"@,
            Self::Fastest => "Fastest"@,
        }
    }

    /// The words a control puts on screen for this variant.
    pub fn label(self) -> (label: &'static str)
        ensures
            label@ == self.label_text(),
            self is Slowest ==> label@ == "Slowest"@,
            self is Slower ==> label@ == "Slower"@,
            self is Normal ==> label@ == "Normal"@,
            self is Faster ==> label@ == "Faster"@,
            self is Fastest ==> label@ == "Fastest"@,
    {
        match self {
            Self::Slowest => "Slowest",
            Self::Slower => "Slower",
            Self::Normal => "Normal",
            Self::Faster => "Faster",
            Self::Fastest => "Fastest",
        }
    }

    /// No two variants claim one key.
    pub proof fn keys_are_distinct(a: Self, b: Self)
        requires
            a.key_text() == b.key_text(),
        ensures
            a == b,
    {
        reveal_strlit("slowest");
        reveal_strlit("slower");
        reveal_strlit("normal");
        reveal_strlit("faster");
        reveal_strlit("fastest");
        assert("slowest"@.len() == 7);
        assert("slower"@.len() == 6);
        assert("normal"@.len() == 6);
        assert("faster"@.len() == 6);
        assert("fastest"@.len() == 7);
        assert("slowest"@[0] != "fastest"@[0]);
        assert("slower"@[0] != "normal"@[0]);
        assert("slower"@[0] != "faster"@[0]);
        assert("normal"@[0] != "faster"@[0]);
    }

    /// The variant a stable key names, or nothing at all.
    pub fn from_key(key: &str) -> (found: Option<Self>)
        ensures
            forall|variant: Self|
                (found == Some(variant)) <==> key@ == #[trigger] variant.key_text(),
    {
        proof {
            assert forall|a: Self, b: Self| #[trigger] a.key_text() == #[trigger] b.key_text() implies a
                == b by {
                Self::keys_are_distinct(a, b);
            }
        }
        if crate::text::same(key, "slowest") {
            assert(Self::Slowest.key_text() == key@);
            Some(Self::Slowest)
        } else if crate::text::same(key, "slower") {
            assert(Self::Slower.key_text() == key@);
            Some(Self::Slower)
        } else if crate::text::same(key, "normal") {
            assert(Self::Normal.key_text() == key@);
            Some(Self::Normal)
        } else if crate::text::same(key, "faster") {
            assert(Self::Faster.key_text() == key@);
            Some(Self::Faster)
        } else if crate::text::same(key, "fastest") {
            assert(Self::Fastest.key_text() == key@);
            Some(Self::Fastest)
        } else {
            None
        }
    }
}

impl EffectSpeed {
    /// Index into the firmware's speed table, 0 slowest through 4 fastest.
    pub fn index(self) -> (index: usize)
        ensures
            index == match self {
                Self::Slowest => 0usize,
                Self::Slower => 1usize,
                Self::Normal => 2usize,
                Self::Faster => 3usize,
                Self::Fastest => 4usize,
            },
    {
        match self {
            Self::Slowest => 0,
            Self::Slower => 1,
            Self::Normal => 2,
            Self::Faster => 3,
            Self::Fastest => 4,
        }
    }
}

/// Which way an animated effect travels along the strip.
#[derive(Debug, Clone, Copy, PartialEq, Eq, PartialOrd, Ord, Hash, Structural)]
pub enum EffectDirection {
    Forward,
    Backward,
}

impl EffectDirection {
    /// Every variant, in the order they are declared and offered.
    pub fn all() -> (all: [Self; 2])
        ensures
            all@ == seq![Self::Forward, Self::Backward],
    {
        let all: [Self; 2] = [Self::Forward, Self::Backward];
        assert(all@ =~= seq![Self::Forward, Self::Backward]);
        all
    }

    /// The stable identifier this variant travels and is stored under.
    pub open spec fn key_text(self) -> Seq<char> {
        match self {
            Self::Forward => "forward"@,
            Self::Backward => "backward"@,
        }
    }

    /// The stable identifier this variant travels and is stored under.
    pub fn key(self) -> (key: &'static str)
        ensures
            key@ == self.key_text(),
            self is Forward ==> key@ == "forward"@,
            self is Backward ==> key@ == "backward"@,
    {
        match self {
            Self::Forward => "forward",
            Self::Backward => "backward",
        }
    }

    /// The words a control puts on screen for this variant.
    pub open spec fn label_text(self) -> Seq<char> {
        match self {
            Self::Forward => "Forward"@,
            Self::Backward => "Backward"@,
        }
    }

    /// The words a control puts on screen for this variant.
    pub fn label(self) -> (label: &'static str)
        ensures
            label@ == self.label_text(),
            self is Forward ==> label@ == "Forward"@,
            self is Backward ==> label@ == "Backward"@,
    {
        match self {
            Self::Forward => "Forward",
            Self::Backward => "Backward",
        }
    }

    /// No two variants claim one key.
    pub proof fn keys_are_distinct(a: Self, b: Self)
        requires
            a.key_text() == b.key_text(),
        ensures
            a == b,
    {
        reveal_strlit("forward");
        reveal_strlit("backward");
        assert("forward"@.len() == 7);
        assert("backward"@.len() == 8);
    }

    /// The variant a stable key names, or nothing at all.
    pub fn from_key(key: &str) -> (found: Option<Self>)
        ensures
            forall|variant: Self|
                (found == Some(variant)) <==> key@ == #[trigger] variant.key_text(),
    {
        proof {
            assert forall|a: Self, b: Self| #[trigger] a.key_text() == #[trigger] b.key_text() implies a
                == b by {
                Self::keys_are_distinct(a, b);
            }
        }
        if crate::text::same(key, "forward") {
            assert(Self::Forward.key_text() == key@);
            Some(Self::Forward)
        } else if crate::text::same(key, "backward") {
            assert(Self::Backward.key_text() == key@);
            Some(Self::Backward)
        } else {
            None
        }
    }
}

/// What one channel should display.
#[derive(Debug, Clone, PartialEq, Eq)]
pub enum LightingProgram {
    /// Every LED on the channel dark.
    Off,
    /// One constant color across the channel.
    Fixed { color: Rgb, brightness: Brightness },
    /// A validated animation.
    Effect {
        effect: LightingEffect,
        /// As many colors as the effect accepts, and no more.
        colors: Vec<Rgb>,
        brightness: Brightness,
        speed: EffectSpeed,
        direction: EffectDirection,
    },
}

impl LightingProgram {
    /// Whether the firmware accepts this program as it stands.
    pub open spec fn valid(self) -> bool {
        match self {
            Self::Off => true,
            Self::Fixed { .. } => true,
            Self::Effect { effect, colors, direction, .. } => {
                &&& effect.min_colors() <= colors@.len() <= effect.max_colors()
                &&& direction is Forward || effect is SpectrumWave
            },
        }
    }

    /// One line describing the program.
    pub open spec fn summary_text(self) -> Seq<char> {
        match self {
            Self::Off => "off"@,
            Self::Fixed { color, brightness } => "fixed #"@ + color.hex_text() + " at "@
                + text::decimal(brightness@ as nat) + "%"@,
            Self::Effect { effect, speed, direction, .. } => {
                let paced = effect.label_text() + " at "@ + text::ascii_lowered(speed.label_text())
                    + " speed"@;
                if effect is SpectrumWave {
                    paced + ", "@ + text::ascii_lowered(direction.label_text())
                } else {
                    paced
                }
            },
        }
    }

    /// Whether two programs ask for the same thing.
    pub open spec fn means(self, other: Self) -> bool {
        match (self, other) {
            (Self::Off, Self::Off) => true,
            (Self::Fixed { color: a, brightness: x }, Self::Fixed { color: b, brightness: y }) => a
                == b && x@ == y@,
            (
                Self::Effect { effect: a, colors: c, brightness: x, speed: s, direction: d },
                Self::Effect { effect: b, colors: e, brightness: y, speed: t, direction: f },
            ) => a == b && c@ == e@ && x@ == y@ && s == t && d == f,
            _ => false,
        }
    }

    /// Capability that must be writable before this program can be applied.
    pub fn required_capability(&self) -> (capability: CapabilityId)
        ensures
            capability == match *self {
                Self::Effect { .. } => CapabilityId::RgbEffects,
                _ => CapabilityId::RgbFixedColor,
            },
    {
        match self {
            Self::Off => CapabilityId::RgbFixedColor,
            Self::Fixed { .. } => CapabilityId::RgbFixedColor,
            Self::Effect { .. } => CapabilityId::RgbEffects,
        }
    }

    /// One line describing the program, for diagnostics and the outcome note.
    pub fn summary(&self) -> (summary: String)
        ensures
            summary@ == self.summary_text(),
    {
        match self {
            Self::Off => "off".to_owned(),
            Self::Fixed { color, brightness } => {
                let mut summary: String = "fixed #".to_owned();
                summary.append(color.to_hex().as_str());
                summary.append(" at ");
                text::push_decimal(&mut summary, brightness.percent() as u64);
                summary.append("%");
                summary
            },
            Self::Effect { effect, speed, direction, .. } => {
                let mut summary: String = effect.label().to_owned();
                summary.append(" at ");
                summary.append(text::lower_ascii(speed.label()).as_str());
                summary.append(" speed");
                if effect.accepts_direction() {
                    summary.append(", ");
                    summary.append(text::lower_ascii(direction.label()).as_str());
                }
                summary
            },
        }
    }

    /// Whether two programs ask for the same thing.
    pub fn same(&self, other: &Self) -> (same: bool)
        ensures
            same == self.means(*other),
    {
        match (self, other) {
            (Self::Off, Self::Off) => true,
            (Self::Fixed { color: a, brightness: x }, Self::Fixed { color: b, brightness: y }) => {
                *a == *b && x.same(*y)
            },
            (
                Self::Effect { effect: a, colors: c, brightness: x, speed: s, direction: d },
                Self::Effect { effect: b, colors: e, brightness: y, speed: t, direction: f },
            ) => { *a == *b && same_colors(c, e) && x.same(*y) && *s == *t && *d == *f },
            _ => false,
        }
    }
}

fn same_colors(a: &Vec<Rgb>, b: &Vec<Rgb>) -> (same: bool)
    ensures
        same == (a@ == b@),
{
    if a.len() != b.len() {
        return false;
    }
    let mut index: usize = 0;
    while index < a.len()
        invariant
            index <= a@.len() == b@.len(),
            forall|i: int| 0 <= i < index ==> a@[i] == b@[i],
        decreases a@.len() - index,
    {
        if a[index] != b[index] {
            return false;
        }
        index = index + 1;
    }
    assert(a@ =~= b@);
    true
}

/// A program addressed to one channel of the controller.
#[derive(Debug, Clone, PartialEq, Eq)]
pub struct LightingCommand {
    /// One-based channel index, matching the label on the controller.
    pub channel: u8,
    pub program: LightingProgram,
}

/// Why a lighting value or command was refused.
#[derive(Debug, Clone, PartialEq, Eq)]
pub enum LightingError {
    ColorDigits { expected: usize, actual: usize },
    ColorAlphabet { value: String },
    BrightnessOutOfRange { value: u8, max: u8 },
    ChannelUnknown { channel: u8, available: u8 },
    ColorCount { effect: String, min: usize, max: usize, actual: usize },
    DirectionUnsupported { effect: String },
    CadenceTooFast { channel: u8, minimum_interval_ms: u64, elapsed_ms: u64 },
}

impl LightingError {
    /// The sentence shown on the control that was refused.
    pub open spec fn text(self) -> Seq<char> {
        match self {
            Self::ColorDigits { expected, actual } => "Enter "@ + text::decimal(expected as nat)
                + " hexadecimal digits, for example 7C5CFF. Got "@ + text::decimal(actual as nat)
                + "."@,
            Self::ColorAlphabet { value } =>
                "Only the digits 0-9 and the letters A-F are accepted, got "@ + value@ + "."@,
            Self::BrightnessOutOfRange { value, max } => "Brightness "@ + text::decimal(
                value as nat,
            ) + " is outside the accepted range 0-"@ + text::decimal(max as nat) + "."@,
            Self::ChannelUnknown { channel, available } => "Channel "@ + text::decimal(
                channel as nat,
            ) + " does not exist. This controller exposes "@ + text::decimal(available as nat)
                + "."@,
            Self::ColorCount { effect, min, max, actual } => effect@ + " accepts "@ + text::decimal(
                min as nat,
            ) + "-"@ + text::decimal(max as nat) + " colors, got "@ + text::decimal(actual as nat)
                + "."@,
            Self::DirectionUnsupported { effect } => effect@
                + " ignores direction on this firmware, so it must stay forward."@,
            Self::CadenceTooFast { channel, minimum_interval_ms, elapsed_ms } =>
                "Commands to channel "@ + text::decimal(channel as nat)
                + " are limited to one every "@ + text::decimal(minimum_interval_ms as nat)
                + " ms; the last one was "@ + text::decimal(elapsed_ms as nat) + " ms ago."@,
        }
    }

    /// The sentence shown on the control that was refused.
    pub fn to_text(&self) -> (message: String)
        ensures
            message@ == self.text(),
    {
        let mut message: String = String::new();
        match self {
            Self::ColorDigits { expected, actual } => {
                message.append("Enter ");
                text::push_decimal(&mut message, *expected as u64);
                message.append(" hexadecimal digits, for example 7C5CFF. Got ");
                text::push_decimal(&mut message, *actual as u64);
                message.append(".");
            },
            Self::ColorAlphabet { value } => {
                message.append("Only the digits 0-9 and the letters A-F are accepted, got ");
                message.append(value.as_str());
                message.append(".");
            },
            Self::BrightnessOutOfRange { value, max } => {
                message.append("Brightness ");
                text::push_decimal(&mut message, *value as u64);
                message.append(" is outside the accepted range 0-");
                text::push_decimal(&mut message, *max as u64);
                message.append(".");
            },
            Self::ChannelUnknown { channel, available } => {
                message.append("Channel ");
                text::push_decimal(&mut message, *channel as u64);
                message.append(" does not exist. This controller exposes ");
                text::push_decimal(&mut message, *available as u64);
                message.append(".");
            },
            Self::ColorCount { effect, min, max, actual } => {
                message.append(effect.as_str());
                message.append(" accepts ");
                text::push_decimal(&mut message, *min as u64);
                message.append("-");
                text::push_decimal(&mut message, *max as u64);
                message.append(" colors, got ");
                text::push_decimal(&mut message, *actual as u64);
                message.append(".");
            },
            Self::DirectionUnsupported { effect } => {
                message.append(effect.as_str());
                message.append(" ignores direction on this firmware, so it must stay forward.");
            },
            Self::CadenceTooFast { channel, minimum_interval_ms, elapsed_ms } => {
                message.append("Commands to channel ");
                text::push_decimal(&mut message, *channel as u64);
                message.append(" are limited to one every ");
                text::push_decimal(&mut message, *minimum_interval_ms);
                message.append(" ms; the last one was ");
                text::push_decimal(&mut message, *elapsed_ms);
                message.append(" ms ago.");
            },
        }
        assert(message@ =~= self.text());
        message
    }

    /// The channel a rejection points at, when it points at one.
    pub fn channel(&self) -> (channel: Option<u8>)
        ensures
            channel == match *self {
                Self::ChannelUnknown { channel, .. } => Some(channel),
                Self::CadenceTooFast { channel, .. } => Some(channel),
                _ => None,
            },
    {
        match self {
            Self::ChannelUnknown { channel, .. } => Some(*channel),
            Self::CadenceTooFast { channel, .. } => Some(*channel),
            _ => None,
        }
    }
}

/// The refusal a program that is not valid meets: its color count first, then
/// its direction.
pub open spec fn refuses(program: LightingProgram, error: LightingError) -> bool {
    match program {
        LightingProgram::Effect { effect, colors, direction, .. } => {
            if !(effect.min_colors() <= colors@.len() <= effect.max_colors()) {
                error matches LightingError::ColorCount { effect: name, min, max, actual } && name@
                    == effect.label_text() && min == effect.min_colors() && max
                    == effect.max_colors() && actual == colors@.len()
            } else {
                error matches LightingError::DirectionUnsupported { effect: name } && name@
                    == effect.label_text()
            }
        },
        _ => false,
    }
}

/// Validate a program on its own, before the channel is even consulted.
pub fn validate_program(program: &LightingProgram) -> (result: Result<(), LightingError>)
    ensures
        result is Ok <==> program.valid(),
        result matches Err(error) ==> refuses(*program, error),
{
    match program {
        LightingProgram::Off => Ok(()),
        LightingProgram::Fixed { .. } => Ok(()),
        LightingProgram::Effect { effect, colors, direction, .. } => {
            let (min, max): (usize, usize) = effect.color_range();
            if colors.len() < min || colors.len() > max {
                return Err(
                    LightingError::ColorCount {
                        effect: effect.label().to_owned(),
                        min,
                        max,
                        actual: colors.len(),
                    },
                );
            }
            if *direction != EffectDirection::Forward && !effect.accepts_direction() {
                return Err(LightingError::DirectionUnsupported { effect: effect.label().to_owned() });
            }
            Ok(())
        },
    }
}

/// Validate a command against a controller exposing `channel_count` channels.
///
/// `channel_count` comes from the device's own answer, so a controller with a
/// different topology refuses the command instead of addressing a channel that
/// is not there.
pub fn validate_command(command: &LightingCommand, channel_count: u8) -> (result: Result<
    (),
    LightingError,
>)
    ensures
        result is Ok <==> 1 <= command.channel <= channel_count && command.program.valid(),
        result matches Err(error) ==> if 1 <= command.channel <= channel_count {
            refuses(command.program, error)
        } else {
            error == (LightingError::ChannelUnknown {
                channel: command.channel,
                available: channel_count,
            })
        },
{
    if command.channel == 0 || command.channel > channel_count {
        return Err(
            LightingError::ChannelUnknown { channel: command.channel, available: channel_count },
        );
    }
    validate_program(&command.program)
}

/// A color survives being written and read: its six digits name it again.
pub proof fn hex_form_is_read_back(color: Rgb)
    ensures
        color_digits(color.hex_text()) == color.hex_text(),
        text::byte_len(color.hex_text()) == HEX_COLOR_DIGITS,
        all_hex_digits(color.hex_text()),
        color_of(color.hex_text()) == color,
{
    let digits = color.hex_text();
    assert(digits.len() == 6);
    assert(all_hex_digits(digits));
    assert(is_hex_digit(digits[0]) && is_hex_digit(digits.last()));
    assert(text::trimmed_start(digits) == digits);
    assert(text::trimmed_end(digits) == digits);
    assert(vstd::utf8::is_ascii_chars(digits));
    vstd::utf8::is_ascii_chars_encode_utf8(digits);
}

/// A brightness takes its share of every channel, rounded down.
pub proof fn brightness_is_a_share_of_each_channel(color: Rgb, percent: u8)
    requires
        percent <= 100,
    ensures
        ({
            let dimmed = color.at_brightness(percent);
            &&& 100 * dimmed.r <= color.r * percent < 100 * dimmed.r + 100
            &&& 100 * dimmed.g <= color.g * percent < 100 * dimmed.g + 100
            &&& 100 * dimmed.b <= color.b * percent < 100 * dimmed.b + 100
        }),
{
    lemma_scale(color.r, percent);
    lemma_scale(color.g, percent);
    lemma_scale(color.b, percent);
}

/// Full brightness changes nothing, no brightness is black, and no brightness
/// makes a channel brighter than it was.
pub proof fn brightness_only_dims(color: Rgb, percent: u8)
    requires
        percent <= MAX_BRIGHTNESS,
    ensures
        color.at_brightness(MAX_BRIGHTNESS) == color,
        color.at_brightness(0) == (Rgb { r: 0, g: 0, b: 0 }),
        color.at_brightness(percent).r <= color.r,
        color.at_brightness(percent).g <= color.g,
        color.at_brightness(percent).b <= color.b,
{
    lemma_scale(color.r, percent);
    lemma_scale(color.g, percent);
    lemma_scale(color.b, percent);
}

/// A program is accepted exactly when it holds as many colors as its effect
/// takes and a direction the effect honors: breathing takes one to eight colors
/// and runs forward, a spectrum wave takes none and runs either way, and what is
/// no effect is always accepted.
pub proof fn a_program_is_accepted_for_its_colors_and_direction(program: LightingProgram)
    ensures
        match program {
            LightingProgram::Off => program.valid(),
            LightingProgram::Fixed { .. } => program.valid(),
            LightingProgram::Effect { effect, colors, direction, .. } => match effect {
                LightingEffect::Breathing => program.valid() <==> 1 <= colors@.len() <= 8
                    && direction == EffectDirection::Forward,
                LightingEffect::SpectrumWave => program.valid() <==> colors@.len() == 0,
            },
        },
{
}

/// The color count is refused before the direction, with what the effect takes.
pub proof fn a_refusal_names_what_the_effect_takes(
    effect: LightingEffect,
    colors: Vec<Rgb>,
    brightness: Brightness,
    speed: EffectSpeed,
    direction: EffectDirection,
    error: LightingError,
)
    requires
        refuses(LightingProgram::Effect { effect, colors, brightness, speed, direction }, error),
    ensures
        effect is Breathing && !(1 <= colors@.len() <= 8) ==> (error matches LightingError::ColorCount {
            min,
            max,
            actual,
            ..
        } && min == 1 && max == 8 && actual == colors@.len()),
        effect is SpectrumWave && colors@.len() > 0 ==> (error matches LightingError::ColorCount {
            min,
            max,
            actual,
            ..
        } && min == 0 && max == 0 && actual == colors@.len()),
        effect is Breathing && 1 <= colors@.len() <= 8 ==> error is DirectionUnsupported,
{
}

/// Being the same program is symmetric, every program is the same as itself, and
/// two that are the same agree in everything they carry.
pub proof fn the_same_program_carries_the_same(one: LightingProgram, other: LightingProgram)
    ensures
        one.means(one),
        one.means(other) <==> other.means(one),
        one.means(other) ==> one.valid() == other.valid(),
        one.means(other) ==> match (one, other) {
            (LightingProgram::Off, LightingProgram::Off) => true,
            (
                LightingProgram::Fixed { color, brightness },
                LightingProgram::Fixed { color: color_two, brightness: brightness_two },
            ) => color == color_two && brightness@ == brightness_two@,
            (
                LightingProgram::Effect { effect, colors, brightness, speed, direction },
                LightingProgram::Effect {
                    effect: effect_two,
                    colors: colors_two,
                    brightness: brightness_two,
                    speed: speed_two,
                    direction: direction_two,
                },
            ) => {
                &&& effect == effect_two
                &&& colors@ == colors_two@
                &&& brightness@ == brightness_two@
                &&& speed == speed_two
                &&& direction == direction_two
            },
            _ => false,
        },
        one == other ==> one.means(other),
{
}

/// A `#` before the digits, and white space before those, make no difference.
pub proof fn a_hash_before_the_digits_makes_no_difference(digits: Seq<char>, space: char)
    requires
        digits.len() > 0,
        !text::is_space(digits[0]),
        !text::is_space(digits[digits.len() - 1]),
        digits[0] != '#',
        text::is_space(space),
    ensures
        color_digits(digits) == digits,
        color_digits(seq!['#'] + digits) == digits,
        color_digits(seq![space] + digits) == digits,
{
    let marked = seq!['#'] + digits;
    text::a_trimmed_text_has_no_space_at_its_ends(digits);
    text::a_trimmed_text_has_no_space_at_its_ends(marked);
    assert(marked[marked.len() - 1] == digits[digits.len() - 1]);
    text::space_around_makes_no_difference(space, digits);
    assert(marked.drop_first() =~= digits);
    assert(without_hashes(marked) == without_hashes(digits));
}

/// Both cases of a hexadecimal letter stand for the same number, and the digits
/// count from nothing to fifteen.
pub proof fn both_cases_of_a_digit_are_one(letter: char)
    ensures
        is_hex_digit(letter) <==> ('0' <= letter && letter <= '9') || ('A' <= letter && letter
            <= 'F') || ('a' <= letter && letter <= 'f'),
        '0' <= letter && letter <= '9' ==> hex_digit_value(letter) == letter as int - '0' as int,
        'A' <= letter && letter <= 'F' ==> hex_digit_value(letter) == 10 + (letter as int
            - 'A' as int) && hex_digit_value((letter as int + 32) as char) == hex_digit_value(letter),
        'a' <= letter && letter <= 'f' ==> hex_digit_value(letter) == 10 + (letter as int
            - 'a' as int),
{
}

/// Six digits name the color whose channels they are two by two.
pub proof fn six_digits_name_a_color(digits: Seq<char>)
    requires
        digits.len() == 6,
        all_hex_digits(digits),
    ensures
        color_of(digits).r == 16 * hex_digit_value(digits[0]) + hex_digit_value(digits[1]),
        color_of(digits).g == 16 * hex_digit_value(digits[2]) + hex_digit_value(digits[3]),
        color_of(digits).b == 16 * hex_digit_value(digits[4]) + hex_digit_value(digits[5]),
{
    assert(is_hex_digit(digits[0]) && is_hex_digit(digits[1]) && is_hex_digit(digits[2]));
    assert(is_hex_digit(digits[3]) && is_hex_digit(digits[4]) && is_hex_digit(digits[5]));
}

/// A hexadecimal digit stands for its number: 0 to 9 for themselves, A to F for
/// ten to fifteen.
pub proof fn a_digit_stands_for_its_number(letter: char)
    ensures
        '0' <= letter && letter <= '9' ==> is_hex_digit(letter) && hex_digit_value(letter)
            == letter as int - '0' as int,
        'A' <= letter && letter <= 'F' ==> is_hex_digit(letter) && hex_digit_value(letter) == 10
            + letter as int - 'A' as int,
        'a' <= letter && letter <= 'f' ==> is_hex_digit(letter) && hex_digit_value(letter) == 10
            + letter as int - 'a' as int,
        is_hex_digit(letter) ==> ('0' <= letter && letter <= '9') || ('A' <= letter && letter
            <= 'F') || ('a' <= letter && letter <= 'f'),
{
}

/// A refusal names every value it carries, each in its own place.
pub proof fn a_lighting_refusal_names_what_it_carries(error: LightingError)
    ensures
        match error {
            LightingError::ColorDigits { expected, actual } => text::tells(
                error.text(),
                seq![text::decimal(expected as nat), text::decimal(actual as nat)],
            ),
            LightingError::ColorAlphabet { value } => text::tells(
                error.text(),
                seq![value@],
            ),
            LightingError::BrightnessOutOfRange { value, max } => text::tells(
                error.text(),
                seq![text::decimal(value as nat), text::decimal(max as nat)],
            ),
            LightingError::ChannelUnknown { channel, available } => text::tells(
                error.text(),
                seq![text::decimal(channel as nat), text::decimal(available as nat)],
            ),
            LightingError::ColorCount { effect, min, max, actual } => text::tells(
                error.text(),
                seq![effect@, text::decimal(min as nat), text::decimal(max as nat), text::decimal(actual as nat)],
            ),
            LightingError::DirectionUnsupported { effect } => text::tells(
                error.text(),
                seq![effect@],
            ),
            LightingError::CadenceTooFast { channel, minimum_interval_ms, elapsed_ms } => text::tells(
                error.text(),
                seq![text::decimal(channel as nat), text::decimal(minimum_interval_ms as nat), text::decimal(elapsed_ms as nat)],
            ),
        },
{
    match error {
        LightingError::ColorDigits { expected, actual } => {
            let rest = "."@;
            let parts = Seq::<Seq<char>>::empty();
            text::lemma_tells(" hexadecimal digits, for example 7C5CFF. Got "@, text::decimal(actual as nat), rest, parts);
            let rest = " hexadecimal digits, for example 7C5CFF. Got "@ + text::decimal(actual as nat) + rest;
            let parts = seq![text::decimal(actual as nat)] + parts;
            text::lemma_tells("Enter "@, text::decimal(expected as nat), rest, parts);
            let rest = "Enter "@ + text::decimal(expected as nat) + rest;
            let parts = seq![text::decimal(expected as nat)] + parts;
            assert(error.text() =~= rest);
            assert(parts =~= seq![text::decimal(expected as nat), text::decimal(actual as nat)]);
        },
        LightingError::ColorAlphabet { value } => {
            let rest = "."@;
            let parts = Seq::<Seq<char>>::empty();
            text::lemma_tells("Only the digits 0-9 and the letters A-F are accepted, got "@, value@, rest, parts);
            let rest = "Only the digits 0-9 and the letters A-F are accepted, got "@ + value@ + rest;
            let parts = seq![value@] + parts;
            assert(error.text() =~= rest);
            assert(parts =~= seq![value@]);
        },
        LightingError::BrightnessOutOfRange { value, max } => {
            let rest = "."@;
            let parts = Seq::<Seq<char>>::empty();
            text::lemma_tells(" is outside the accepted range 0-"@, text::decimal(max as nat), rest, parts);
            let rest = " is outside the accepted range 0-"@ + text::decimal(max as nat) + rest;
            let parts = seq![text::decimal(max as nat)] + parts;
            text::lemma_tells("Brightness "@, text::decimal(value as nat), rest, parts);
            let rest = "Brightness "@ + text::decimal(value as nat) + rest;
            let parts = seq![text::decimal(value as nat)] + parts;
            assert(error.text() =~= rest);
            assert(parts =~= seq![text::decimal(value as nat), text::decimal(max as nat)]);
        },
        LightingError::ChannelUnknown { channel, available } => {
            let rest = "."@;
            let parts = Seq::<Seq<char>>::empty();
            text::lemma_tells(" does not exist. This controller exposes "@, text::decimal(available as nat), rest, parts);
            let rest = " does not exist. This controller exposes "@ + text::decimal(available as nat) + rest;
            let parts = seq![text::decimal(available as nat)] + parts;
            text::lemma_tells("Channel "@, text::decimal(channel as nat), rest, parts);
            let rest = "Channel "@ + text::decimal(channel as nat) + rest;
            let parts = seq![text::decimal(channel as nat)] + parts;
            assert(error.text() =~= rest);
            assert(parts =~= seq![text::decimal(channel as nat), text::decimal(available as nat)]);
        },
        LightingError::ColorCount { effect, min, max, actual } => {
            let rest = "."@;
            let parts = Seq::<Seq<char>>::empty();
            text::lemma_tells(" colors, got "@, text::decimal(actual as nat), rest, parts);
            let rest = " colors, got "@ + text::decimal(actual as nat) + rest;
            let parts = seq![text::decimal(actual as nat)] + parts;
            text::lemma_tells("-"@, text::decimal(max as nat), rest, parts);
            let rest = "-"@ + text::decimal(max as nat) + rest;
            let parts = seq![text::decimal(max as nat)] + parts;
            text::lemma_tells(" accepts "@, text::decimal(min as nat), rest, parts);
            let rest = " accepts "@ + text::decimal(min as nat) + rest;
            let parts = seq![text::decimal(min as nat)] + parts;
            text::lemma_tells(Seq::<char>::empty(), effect@, rest, parts);
            let rest = Seq::<char>::empty() + effect@ + rest;
            let parts = seq![effect@] + parts;
            assert(error.text() =~= rest);
            assert(parts =~= seq![effect@, text::decimal(min as nat), text::decimal(max as nat), text::decimal(actual as nat)]);
        },
        LightingError::DirectionUnsupported { effect } => {
            let rest = " ignores direction on this firmware, so it must stay forward."@;
            let parts = Seq::<Seq<char>>::empty();
            text::lemma_tells(Seq::<char>::empty(), effect@, rest, parts);
            let rest = Seq::<char>::empty() + effect@ + rest;
            let parts = seq![effect@] + parts;
            assert(error.text() =~= rest);
            assert(parts =~= seq![effect@]);
        },
        LightingError::CadenceTooFast { channel, minimum_interval_ms, elapsed_ms } => {
            let rest = " ms ago."@;
            let parts = Seq::<Seq<char>>::empty();
            text::lemma_tells(" ms; the last one was "@, text::decimal(elapsed_ms as nat), rest, parts);
            let rest = " ms; the last one was "@ + text::decimal(elapsed_ms as nat) + rest;
            let parts = seq![text::decimal(elapsed_ms as nat)] + parts;
            text::lemma_tells(" are limited to one every "@, text::decimal(minimum_interval_ms as nat), rest, parts);
            let rest = " are limited to one every "@ + text::decimal(minimum_interval_ms as nat) + rest;
            let parts = seq![text::decimal(minimum_interval_ms as nat)] + parts;
            text::lemma_tells("Commands to channel "@, text::decimal(channel as nat), rest, parts);
            let rest = "Commands to channel "@ + text::decimal(channel as nat) + rest;
            let parts = seq![text::decimal(channel as nat)] + parts;
            assert(error.text() =~= rest);
            assert(parts =~= seq![text::decimal(channel as nat), text::decimal(minimum_interval_ms as nat), text::decimal(elapsed_ms as nat)]);
        },
    }
}

/// A summary names what a program shows: a color by its digits and how bright it
/// is, an effect by its name and its pace, and its direction only where it has
/// one.
pub proof fn a_summary_names_what_is_shown(program: LightingProgram)
    ensures
        program is Off ==> program.summary_text() == "off"@,
        program matches LightingProgram::Fixed { color, brightness } ==> text::tells(
            program.summary_text(),
            seq![color.hex_text(), text::decimal(brightness@ as nat)],
        ),
        program matches LightingProgram::Effect { effect, speed, direction, .. } ==> if effect
            is SpectrumWave {
            text::tells(
                program.summary_text(),
                seq![
                    effect.label_text(),
                    text::ascii_lowered(speed.label_text()),
                    text::ascii_lowered(direction.label_text()),
                ],
            )
        } else {
            text::tells(
                program.summary_text(),
                seq![effect.label_text(), text::ascii_lowered(speed.label_text())],
            )
        },
{
    match program {
        LightingProgram::Off => {},
        LightingProgram::Fixed { color, brightness } => {
            let rest = "%"@;
            let parts = Seq::<Seq<char>>::empty();
            text::lemma_tells(" at "@, text::decimal(brightness@ as nat), rest, parts);
            let rest = " at "@ + text::decimal(brightness@ as nat) + rest;
            let parts = seq![text::decimal(brightness@ as nat)] + parts;
            text::lemma_tells("fixed #"@, color.hex_text(), rest, parts);
            let rest = "fixed #"@ + color.hex_text() + rest;
            let parts = seq![color.hex_text()] + parts;
            assert(program.summary_text() =~= rest);
            assert(parts =~= seq![color.hex_text(), text::decimal(brightness@ as nat)]);
        },
        LightingProgram::Effect { effect, speed, direction, .. } => {
            if effect is SpectrumWave {
                let rest = Seq::<char>::empty();
                let parts = Seq::<Seq<char>>::empty();
                text::lemma_tells(" speed"@ + ", "@, text::ascii_lowered(direction.label_text()), rest, parts);
                let rest = " speed"@ + ", "@ + text::ascii_lowered(direction.label_text()) + rest;
                let parts = seq![text::ascii_lowered(direction.label_text())] + parts;
                text::lemma_tells(" at "@, text::ascii_lowered(speed.label_text()), rest, parts);
                let rest = " at "@ + text::ascii_lowered(speed.label_text()) + rest;
                let parts = seq![text::ascii_lowered(speed.label_text())] + parts;
                text::lemma_tells(Seq::<char>::empty(), effect.label_text(), rest, parts);
                let rest = Seq::<char>::empty() + effect.label_text() + rest;
                let parts = seq![effect.label_text()] + parts;
                assert(program.summary_text() =~= rest);
                assert(parts =~= seq![effect.label_text(), text::ascii_lowered(speed.label_text()), text::ascii_lowered(direction.label_text())]);
            } else {
                let rest = " speed"@;
                let parts = Seq::<Seq<char>>::empty();
                text::lemma_tells(" at "@, text::ascii_lowered(speed.label_text()), rest, parts);
                let rest = " at "@ + text::ascii_lowered(speed.label_text()) + rest;
                let parts = seq![text::ascii_lowered(speed.label_text())] + parts;
                text::lemma_tells(Seq::<char>::empty(), effect.label_text(), rest, parts);
                let rest = Seq::<char>::empty() + effect.label_text() + rest;
                let parts = seq![effect.label_text()] + parts;
                assert(program.summary_text() =~= rest);
                assert(parts =~= seq![effect.label_text(), text::ascii_lowered(speed.label_text())]);
            }
        },
    }
}

/// Every sign before the digits goes, and nothing else does.
pub proof fn only_the_signs_before_the_digits_go(value: Seq<char>) -> (signs: int)
    ensures
        0 <= signs <= value.len(),
        without_hashes(value) == value.skip(signs),
        forall|i: int| 0 <= i < signs ==> #[trigger] value[i] == '#',
        signs < value.len() ==> value[signs] != '#',
    decreases value.len(),
{
    if value.len() > 0 && value[0] == '#' {
        let rest = value.drop_first();
        let signs = only_the_signs_before_the_digits_go(rest);
        assert(rest.skip(signs) =~= value.skip(signs + 1));
        assert forall|i: int| 0 <= i < signs + 1 implies #[trigger] value[i] == '#' by {
            if i > 0 {
                assert(value[i] == rest[i - 1]);
            }
        }
        signs + 1
    } else {
        assert(value.skip(0) =~= value);
        0
    }
}

/// A color is written in six digits, its letters in upper case.
pub proof fn a_color_is_written_in_upper_case(color: Rgb, i: int)
    requires
        0 <= i < 6,
    ensures
        color.hex_text().len() == 6,
        ('0' <= color.hex_text()[i] && color.hex_text()[i] <= '9') || ('A' <= color.hex_text()[i]
            && color.hex_text()[i] <= 'F'),
{
}

} // verus!
