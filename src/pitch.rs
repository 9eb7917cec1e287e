use vstd::prelude::*;
use vstd::string::*;

verus! {

/// Number of semitones in one octave.
pub const SEMITONES_PER_OCTAVE: i32 = 12;

/// Octave of the lowest row of the computer-keyboard layout.
pub const KEYBOARD_BASE_OCTAVE: i32 = 4;

/// One of the twelve pitch classes of the chromatic scale.
#[derive(Debug, Clone, Copy, PartialEq, Eq, Hash, Structural)]
pub enum Note {
    C,
    Db,
    D,
    Eb,
    E,
    F,
    Gb,
    G,
    Ab,
    A,
    Bb,
    B,
}

/// Offset of a pitch class above C, in semitones.
pub open spec fn semitone_of(n: Note) -> int {
    match n {
        Note::C => 0,
        Note::Db => 1,
        Note::D => 2,
        Note::Eb => 3,
        Note::E => 4,
        Note::F => 5,
        Note::Gb => 6,
        Note::G => 7,
        Note::Ab => 8,
        Note::A => 9,
        Note::Bb => 10,
        Note::B => 11,
    }
}

/// The pitch class whose offset above C is `s`, taken modulo 12.
pub open spec fn note_of(s: int) -> Note {
    let r = s % 12;
    if r == 0 {
        Note::C
    } else if r == 1 {
        Note::Db
    } else if r == 2 {
        Note::D
    } else if r == 3 {
        Note::Eb
    } else if r == 4 {
        Note::E
    } else if r == 5 {
        Note::F
    } else if r == 6 {
        Note::Gb
    } else if r == 7 {
        Note::G
    } else if r == 8 {
        Note::Ab
    } else if r == 9 {
        Note::A
    } else if r == 10 {
        Note::Bb
    } else {
        Note::B
    }
}

/// The conventional name of a pitch class, with `b` for flat.
pub open spec fn note_name(n: Note) -> Seq<char> {
    match n {
        Note::C => seq!['C'],
        Note::Db => seq!['D', 'b'],
        Note::D => seq!['D'],
        Note::Eb => seq!['E', 'b'],
        Note::E => seq!['E'],
        Note::F => seq!['F'],
        Note::Gb => seq!['G', 'b'],
        Note::G => seq!['G'],
        Note::Ab => seq!['A', 'b'],
        Note::A => seq!['A'],
        Note::Bb => seq!['B', 'b'],
        Note::B => seq!['B'],
    }
}

/// Every pitch class is recovered from its own offset.
pub proof fn lemma_note_of_semitone(n: Note)
    ensures
        0 <= semitone_of(n) < 12,
        note_of(semitone_of(n)) == n,
{
}

impl Note {
    /// Offset of this pitch class above C.
    pub fn semitone(self) -> (r: i32)
        ensures
            r == semitone_of(self),
    {
        match self {
            Note::C => 0,
            Note::Db => 1,
            Note::D => 2,
            Note::Eb => 3,
            Note::E => 4,
            Note::F => 5,
            Note::Gb => 6,
            Note::G => 7,
            Note::Ab => 8,
            Note::A => 9,
            Note::Bb => 10,
            Note::B => 11,
        }
    }

    /// The pitch class `semitone` steps above C; total, wrapping every octave.
    pub fn from_semitone(semitone: u32) -> (r: Option<Note>)
        ensures
            r == Some(note_of(semitone as int)),
    {
        let s: u32 = semitone % 12;
        let n = if s == 0 {
            Note::C
        } else if s == 1 {
            Note::Db
        } else if s == 2 {
            Note::D
        } else if s == 3 {
            Note::Eb
        } else if s == 4 {
            Note::E
        } else if s == 5 {
            Note::F
        } else if s == 6 {
            Note::Gb
        } else if s == 7 {
            Note::G
        } else if s == 8 {
            Note::Ab
        } else if s == 9 {
            Note::A
        } else if s == 10 {
            Note::Bb
        } else {
            Note::B
        };
        Some(n)
    }

    /// The conventional name of this pitch class.
    pub fn name(self) -> (r: &'static str)
        ensures
            r@ == note_name(self),
    {
        match self {
            Note::C => {
                proof { reveal_strlit("C"); }
                "C"
            },
            Note::Db => {
                proof { reveal_strlit("Db"); }
                "Db"
            },
            Note::D => {
                proof { reveal_strlit("D"); }
                "D"
            },
            Note::Eb => {
                proof { reveal_strlit("Eb"); }
                "Eb"
            },
            Note::E => {
                proof { reveal_strlit("E"); }
                "E"
            },
            Note::F => {
                proof { reveal_strlit("F"); }
                "F"
            },
            Note::Gb => {
                proof { reveal_strlit("Gb"); }
                "Gb"
            },
            Note::G => {
                proof { reveal_strlit("G"); }
                "G"
            },
            Note::Ab => {
                proof { reveal_strlit("Ab"); }
                "Ab"
            },
            Note::A => {
                proof { reveal_strlit("A"); }
                "A"
            },
            Note::Bb => {
                proof { reveal_strlit("Bb"); }
                "Bb"
            },
            Note::B => {
                proof { reveal_strlit("B"); }
                "B"
            },
        }
    }
}

/// A pitch: a pitch class in a given octave.
#[derive(Debug, Clone, Copy, PartialEq, Eq, Hash, Structural)]
pub struct Key {
    pub note: Note,
    pub octave: i32,
}

/// Semitones above C of octave 0.
pub open spec fn abs_semitone(k: Key) -> int {
    k.octave * 12 + semitone_of(k.note)
}

/// Whether `x` fits an `i32`.
pub open spec fn fits_i32(x: int) -> bool {
    i32::MIN <= x <= i32::MAX
}

/// The key `n` semitones away from `k`, by floor division and modulo.
pub open spec fn transposed(k: Key, n: int) -> Key {
    let a = abs_semitone(k) + n;
    Key { note: note_of(a), octave: (a / 12) as i32 }
}

/// Decimal digits of a natural number, most significant first.
pub open spec fn digits_of(n: nat) -> Seq<char>
    decreases n,
{
    if n < 10 {
        seq![digit_char(n)]
    } else {
        digits_of(n / 10).push(digit_char(n % 10))
    }
}

/// The character of a decimal digit.
pub open spec fn digit_char(d: nat) -> char {
    if d == 0 { '0' } else if d == 1 { '1' } else if d == 2 { '2' } else if d == 3 { '3' }
    else if d == 4 { '4' } else if d == 5 { '5' } else if d == 6 { '6' } else if d == 7 { '7' }
    else if d == 8 { '8' } else { '9' }
}

/// An integer written in decimal, with a leading `-` when negative.
pub open spec fn decimal_of(i: int) -> Seq<char> {
    if i < 0 {
        seq!['-'] + digits_of((-i) as nat)
    } else {
        digits_of(i as nat)
    }
}

/// The key that a computer-keyboard character plays: the home row holds the
/// white keys from C of the base octave, the row above holds the black keys.
pub open spec fn layout_key(c: char) -> Option<Key> {
    let b = KEYBOARD_BASE_OCTAVE;
    if c == 'a' { Some(Key { note: Note::C, octave: b }) }
    else if c == 's' { Some(Key { note: Note::D, octave: b }) }
    else if c == 'd' { Some(Key { note: Note::E, octave: b }) }
    else if c == 'f' { Some(Key { note: Note::F, octave: b }) }
    else if c == 'g' { Some(Key { note: Note::G, octave: b }) }
    else if c == 'h' { Some(Key { note: Note::A, octave: b }) }
    else if c == 'j' { Some(Key { note: Note::B, octave: b }) }
    else if c == 'k' { Some(Key { note: Note::C, octave: (b + 1) as i32 }) }
    else if c == 'l' { Some(Key { note: Note::D, octave: (b + 1) as i32 }) }
    else if c == ';' { Some(Key { note: Note::E, octave: (b + 1) as i32 }) }
    else if c == '\'' { Some(Key { note: Note::F, octave: (b + 1) as i32 }) }
    else if c == 'w' { Some(Key { note: Note::Db, octave: b }) }
    else if c == 'e' { Some(Key { note: Note::Eb, octave: b }) }
    else if c == 't' { Some(Key { note: Note::Gb, octave: b }) }
    else if c == 'y' { Some(Key { note: Note::Ab, octave: b }) }
    else if c == 'u' { Some(Key { note: Note::Bb, octave: b }) }
    else if c == 'o' { Some(Key { note: Note::Db, octave: (b + 1) as i32 }) }
    else if c == 'p' { Some(Key { note: Note::Eb, octave: (b + 1) as i32 }) }
    else { None }
}

/// Transposing by an octave moves the absolute semitone by exactly twelve and
/// keeps the pitch class (so the frequency doubles); transposing by nothing
/// gives the same key back.
pub proof fn lemma_transpose_octave(k: Key)
    requires
        fits_i32(abs_semitone(k) + 12),
    ensures
        abs_semitone(transposed(k, 12)) == abs_semitone(k) + 12,
        transposed(k, 12).note == k.note,
        transposed(k, 0) == k,
{
    lemma_note_of_semitone(k.note);
    let a = abs_semitone(k);
    assert((a + 12) / 12 == k.octave + 1);
    assert((a + 12) % 12 == semitone_of(k.note));
    assert(a / 12 == k.octave);
    assert(a % 12 == semitone_of(k.note));
}

/// Frequency of each pitch class in octave 4, in microhertz: A4 is 440 Hz and
/// each semitone is a factor of 2^(1/12), rounded to the nearest microhertz.
pub open spec fn octave4_uhz(n: Note) -> nat {
    match n {
        Note::C => 261_625_565,
        Note::Db => 277_182_631,
        Note::D => 293_664_768,
        Note::Eb => 311_126_984,
        Note::E => 329_627_557,
        Note::F => 349_228_231,
        Note::Gb => 369_994_423,
        Note::G => 391_995_436,
        Note::Ab => 415_304_698,
        Note::A => 440_000_000,
        Note::Bb => 466_163_762,
        Note::B => 493_883_301,
    }
}

/// A frequency given exactly as `base_uhz · 2^octave_shift` microhertz.
#[derive(Debug, Clone, Copy, PartialEq, Eq, Structural)]
pub struct Frequency {
    pub base_uhz: u64,
    pub octave_shift: i64,
}

/// Frequency of a key: its pitch class's frequency in octave 4, doubled for
/// each octave above and halved for each octave below.
pub open spec fn frequency_of(k: Key) -> Frequency {
    Frequency { base_uhz: octave4_uhz(k.note) as u64, octave_shift: (k.octave - 4) as i64 }
}

/// `a` is a strictly lower frequency than `b`, where `b` lies at most one
/// octave shift above `a`.
pub open spec fn lower_within_octave(a: Frequency, b: Frequency) -> bool {
    ||| (a.octave_shift == b.octave_shift && a.base_uhz < b.base_uhz)
    ||| (a.octave_shift + 1 == b.octave_shift && a.base_uhz < 2 * b.base_uhz)
}

/// `x` to the twelfth power.
pub open spec fn pow12(x: int) -> int {
    x * x * x * x * x * x * x * x * x * x * x * x
}

/// `v` microhertz is the nearest whole microhertz to `440 Hz · 2^(d / 12)`:
/// the twelfth powers of `2v − 1` and `2v + 1` bracket that of twice the
/// frequency, `880 000 000^12 · 2^d`.
pub open spec fn nearest_uhz(v: int, d: int) -> bool {
    if d >= 0 {
        pow12(2 * v - 1) <= pow12(880_000_000) * pow2_small(d) <= pow12(2 * v + 1)
    } else {
        pow12(2 * v - 1) * pow2_small(-d) <= pow12(880_000_000) <= pow12(2 * v + 1) * pow2_small(-d)
    }
}

/// `2^e` for the exponents below 12.
pub open spec fn pow2_small(e: int) -> int {
    if e == 0 { 1 } else if e == 1 { 2 } else if e == 2 { 4 } else if e == 3 { 8 }
    else if e == 4 { 16 } else if e == 5 { 32 } else if e == 6 { 64 } else if e == 7 { 128 }
    else if e == 8 { 256 } else { 512 }
}

/// Each pitch class's frequency in octave 4 is the whole number of
/// microhertz nearest to `440 Hz · 2^((s − 9) / 12)`, `s` its offset above C.
pub proof fn lemma_octave4_table_nearest(n: Note)
    ensures
        nearest_uhz(octave4_uhz(n) as int, semitone_of(n) - 9),
{
    match n {
        Note::C => assert(nearest_uhz(261_625_565, -9)) by (nonlinear_arith),
        Note::Db => assert(nearest_uhz(277_182_631, -8)) by (nonlinear_arith),
        Note::D => assert(nearest_uhz(293_664_768, -7)) by (nonlinear_arith),
        Note::Eb => assert(nearest_uhz(311_126_984, -6)) by (nonlinear_arith),
        Note::E => assert(nearest_uhz(329_627_557, -5)) by (nonlinear_arith),
        Note::F => assert(nearest_uhz(349_228_231, -4)) by (nonlinear_arith),
        Note::Gb => assert(nearest_uhz(369_994_423, -3)) by (nonlinear_arith),
        Note::G => assert(nearest_uhz(391_995_436, -2)) by (nonlinear_arith),
        Note::Ab => assert(nearest_uhz(415_304_698, -1)) by (nonlinear_arith),
        Note::A => assert(nearest_uhz(440_000_000, 0)) by (nonlinear_arith),
        Note::Bb => assert(nearest_uhz(466_163_762, 1)) by (nonlinear_arith),
        Note::B => assert(nearest_uhz(493_883_301, 2)) by (nonlinear_arith),
    }
}

/// A4 sounds at 440 Hz; every frequency is above 0; transposing up an
/// octave doubles the frequency exactly; and each semitone up gives a
/// strictly higher frequency.
pub proof fn lemma_octave_doubles_frequency(k: Key)
    requires
        fits_i32(abs_semitone(k) + 12),
    ensures
        frequency_of(Key { note: Note::A, octave: 4 }) == (Frequency { base_uhz: 440_000_000, octave_shift: 0 }),
        frequency_of(k).base_uhz > 0,
        frequency_of(transposed(k, 12)).base_uhz == frequency_of(k).base_uhz,
        frequency_of(transposed(k, 12)).octave_shift == frequency_of(k).octave_shift + 1,
        lower_within_octave(frequency_of(k), frequency_of(transposed(k, 1))),
{
    lemma_transpose_octave(k);
    lemma_note_of_semitone(k.note);
    let t = transposed(k, 12);
    lemma_note_of_semitone(t.note);
    let u = transposed(k, 1);
    lemma_note_of_semitone(u.note);
    assert(abs_semitone(u) == abs_semitone(k) + 1);
}

/// Appends the decimal digits of `n` to `s`.
fn append_digits(s: &mut String, n: u64)
    ensures
        final(s)@ == old(s)@ + digits_of(n as nat),
    decreases n,
{
    if n >= 10 {
        append_digits(s, n / 10);
    }
    let d: u64 = n % 10;
    let t = if d == 0 {
        proof { reveal_strlit("0"); }
        "0"
    } else if d == 1 {
        proof { reveal_strlit("1"); }
        "1"
    } else if d == 2 {
        proof { reveal_strlit("2"); }
        "2"
    } else if d == 3 {
        proof { reveal_strlit("3"); }
        "3"
    } else if d == 4 {
        proof { reveal_strlit("4"); }
        "4"
    } else if d == 5 {
        proof { reveal_strlit("5"); }
        "5"
    } else if d == 6 {
        proof { reveal_strlit("6"); }
        "6"
    } else if d == 7 {
        proof { reveal_strlit("7"); }
        "7"
    } else if d == 8 {
        proof { reveal_strlit("8"); }
        "8"
    } else {
        proof { reveal_strlit("9"); }
        "9"
    };
    assert(t@ == seq![digit_char(d as nat)]);
    s.append(t);
    assert(s@ =~= old(s)@ + digits_of(n as nat));
}

impl Key {
    pub fn new(note: Note, octave: i32) -> (r: Key)
        ensures
            r.note == note,
            r.octave == octave,
    {
        Key { note, octave }
    }

    pub fn note(self) -> (r: Note)
        ensures
            r == self.note,
    {
        self.note
    }

    pub fn octave(self) -> (r: i32)
        ensures
            r == self.octave,
    {
        self.octave
    }

    /// Semitones above C of octave 0.
    pub fn absolute_semitone(self) -> (r: i32)
        requires
            fits_i32(abs_semitone(self)),
        ensures
            r == abs_semitone(self),
    {
        (self.octave as i64 * SEMITONES_PER_OCTAVE as i64 + self.note.semitone() as i64) as i32
    }

    /// Frequency: 440 Hz at A4, doubling with each octave.
    pub fn frequency(self) -> (r: Frequency)
        ensures
            r == frequency_of(self),
    {
        let base: u64 = match self.note {
            Note::C => 261_625_565,
            Note::Db => 277_182_631,
            Note::D => 293_664_768,
            Note::Eb => 311_126_984,
            Note::E => 329_627_557,
            Note::F => 349_228_231,
            Note::Gb => 369_994_423,
            Note::G => 391_995_436,
            Note::Ab => 415_304_698,
            Note::A => 440_000_000,
            Note::Bb => 466_163_762,
            Note::B => 493_883_301,
        };
        Frequency { base_uhz: base, octave_shift: self.octave as i64 - 4 }
    }

    /// The key `semitones` away, correct for negative shifts too.
    pub fn transpose(self, semitones: i32) -> (r: Key)
        requires
            fits_i32(abs_semitone(self) + semitones),
        ensures
            r == transposed(self, semitones as int),
            abs_semitone(r) == abs_semitone(self) + semitones,
    {
        let a: i64 = self.octave as i64 * 12 + self.note.semitone() as i64 + semitones as i64;
        // shift by a multiple of twelve below i32::MIN so that the division is unsigned
        let shifted: u64 = (a + 2147483652i64) as u64;
        let octave: i32 = ((shifted / 12) as i64 - 178956971i64) as i32;
        let s: u32 = (shifted % 12) as u32;
        assert(shifted as int / 12 - 178956971 == a / 12);
        assert(shifted as int % 12 == a % 12);
        let note = match Note::from_semitone(s) {
            Some(n) => n,
            None => Note::C,
        };
        let r = Key { note, octave };
        proof {
            lemma_note_of_semitone(note);
        }
        r
    }

    /// The key that a computer-keyboard character plays, if any.
    pub fn from_keycode(c: char) -> (r: Option<Key>)
        ensures
            r == layout_key(c),
    {
        let b = KEYBOARD_BASE_OCTAVE;
        if c == 'a' { Some(Key::new(Note::C, b)) }
        else if c == 's' { Some(Key::new(Note::D, b)) }
        else if c == 'd' { Some(Key::new(Note::E, b)) }
        else if c == 'f' { Some(Key::new(Note::F, b)) }
        else if c == 'g' { Some(Key::new(Note::G, b)) }
        else if c == 'h' { Some(Key::new(Note::A, b)) }
        else if c == 'j' { Some(Key::new(Note::B, b)) }
        else if c == 'k' { Some(Key::new(Note::C, b + 1)) }
        else if c == 'l' { Some(Key::new(Note::D, b + 1)) }
        else if c == ';' { Some(Key::new(Note::E, b + 1)) }
        else if c == '\'' { Some(Key::new(Note::F, b + 1)) }
        else if c == 'w' { Some(Key::new(Note::Db, b)) }
        else if c == 'e' { Some(Key::new(Note::Eb, b)) }
        else if c == 't' { Some(Key::new(Note::Gb, b)) }
        else if c == 'y' { Some(Key::new(Note::Ab, b)) }
        else if c == 'u' { Some(Key::new(Note::Bb, b)) }
        else if c == 'o' { Some(Key::new(Note::Db, b + 1)) }
        else if c == 'p' { Some(Key::new(Note::Eb, b + 1)) }
        else { None }
    }

    /// The note name followed by the octave in decimal, such as `C4` or `Bb-1`.
    pub fn to_string(self) -> (r: String)
        ensures
            r@ == note_name(self.note) + decimal_of(self.octave as int),
    {
        let mut s = String::from_str(self.note.name());
        let o: i64 = self.octave as i64;
        if o < 0 {
            proof { reveal_strlit("-"); }
            s.append("-");
            append_digits(&mut s, (-o) as u64);
            assert(s@ =~= note_name(self.note) + decimal_of(self.octave as int));
        } else {
            append_digits(&mut s, o as u64);
        }
        s
    }
}

} // verus!
